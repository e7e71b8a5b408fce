//! The viewport engine: scroll state, one-shot scroll commands, and the
//! per-frame resolution that turns a pending command into new offsets.
//!
//! All heights are measured through [`crate::wrap::line_height`], so the
//! gutter and the body are laid out against the same wrap computation.

use vstd::prelude::*;

use crate::text::{SpanModel, StyledLine, line_width};
use crate::util::{digit_count, sat_usize};
use crate::wrap::line_height;

verus! {

/// A one-shot scroll command, consumed once per render pass.
/// Setting a new command overwrites an unconsumed one.
#[derive(Clone, Copy, Debug, PartialEq, Eq, Structural)]
pub enum ScrollCommand {
    Idle,
    LineForward,
    LineBackward,
    PageForward,
    PageBackward,
    Top,
    End,
    ColumnRight,
    ColumnLeft,
}

/// Display options: `number` toggles the line-number gutter, `wrap` toggles
/// word-wrap (off means fixed horizontal panning).
#[derive(Clone, Copy, Debug, PartialEq, Eq, Structural)]
pub struct ScrollLinesOptions {
    pub number: bool,
    pub wrap: bool,
}

impl Default for ScrollLinesOptions {
    /// Both the gutter and word-wrap start enabled.
    fn default() -> (r: Self)
        ensures
            r.number,
            r.wrap,
    {
        ScrollLinesOptions { number: true, wrap: true }
    }
}

/// Scroll state for one piece of content, owned by the caller and mutated
/// in place each frame.
#[derive(Debug)]
pub struct ScrollLinesState {
    lines: Vec<StyledLine>,
    original_lines: Vec<String>,
    max_digits: usize,
    max_line_width: usize,
    v_offset: usize,
    h_offset: usize,
    options: ScrollLinesOptions,
    title: String,
    pending_command: ScrollCommand,
}

/// Mathematical model of a [`ScrollLinesState`].
pub ghost struct ScrollModel {
    pub lines: Seq<Seq<SpanModel>>,
    pub plain_lines: Seq<Seq<char>>,
    pub max_digits: nat,
    pub max_line_width: nat,
    pub v_offset: nat,
    pub h_offset: nat,
    pub number: bool,
    pub wrap: bool,
    pub title: Seq<char>,
    pub pending: ScrollCommand,
}

impl View for ScrollLinesState {
    type V = ScrollModel;

    closed spec fn view(&self) -> ScrollModel {
        ScrollModel {
            lines: self.lines@.map_values(|l: StyledLine| l@),
            plain_lines: self.original_lines@.map_values(|s: String| s@),
            max_digits: self.max_digits as nat,
            max_line_width: self.max_line_width as nat,
            v_offset: self.v_offset as nat,
            h_offset: self.h_offset as nat,
            number: self.options.number,
            wrap: self.options.wrap,
            title: self.title@,
            pending: self.pending_command,
        }
    }
}

/// The greatest valid index of a sequence of length `n`, or zero when it is
/// empty.
pub open spec fn last_index(n: nat) -> nat {
    if n == 0 {
        0
    } else {
        (n - 1) as nat
    }
}

/// The greatest width over a sequence of display lines.
pub open spec fn max_width(lines: Seq<Seq<SpanModel>>) -> nat
    decreases lines.len(),
{
    if lines.len() == 0 {
        0
    } else {
        let rest = max_width(lines.drop_last());
        let lw = line_width(lines.last());
        if lw > rest {
            lw
        } else {
            rest
        }
    }
}

/// Well-formedness of the scroll state: the two line sequences are
/// index-aligned, the cached label width and maximal line width match the
/// content, and both offsets are in range.
pub open spec fn wf(m: ScrollModel) -> bool {
    &&& m.lines.len() == m.plain_lines.len()
    &&& m.lines.len() <= usize::MAX as nat
    &&& m.max_digits == digit_count(m.lines.len())
    &&& m.max_line_width == sat_usize(max_width(m.lines))
    &&& m.v_offset <= last_index(m.lines.len())
    &&& m.h_offset <= last_index(m.max_line_width)
}

/// Width of the line-number gutter: the label width plus one column of
/// padding, or zero when the gutter is disabled.
pub open spec fn spec_gutter_width(m: ScrollModel) -> nat {
    if m.number {
        m.max_digits + 1
    } else {
        0
    }
}

/// Width left for the text body inside a content area `w` columns wide:
/// the gutter and two columns of padding are subtracted, with a floor of
/// one column.
pub open spec fn spec_text_width(m: ScrollModel, w: nat) -> nat {
    if w >= spec_gutter_width(m) + 3 {
        (w - spec_gutter_width(m) - 2) as nat
    } else {
        1
    }
}

/// Sum of the first `k` entries of a height sequence.
pub open spec fn sum_prefix(hs: Seq<nat>, k: int) -> nat
    decreases k,
{
    if k <= 0 {
        0
    } else {
        sum_prefix(hs, k - 1) + hs[k - 1]
    }
}

/// Walk a height sequence from entry `k` with `acc` rows already
/// accumulated: count entries until the accumulation reaches `target`.
/// The count is corrected down by one when the last entry overshoots, so a
/// partially visible line stays at the top.  `None` when the walk runs out
/// of entries first.
pub open spec fn page_advance_from(hs: Seq<nat>, k: int, acc: int, target: int) -> Option<int>
    decreases hs.len() - k,
{
    if k < 0 || k >= hs.len() {
        Option::None
    } else {
        let acc2 = acc + hs[k];
        if acc2 >= target {
            Option::Some(
                if acc2 > target {
                    k
                } else {
                    k + 1
                },
            )
        } else {
            page_advance_from(hs, k + 1, acc2, target)
        }
    }
}

/// The corrected count of lines a page scroll consumes, walking `hs` from
/// the front against `target` rows.
pub open spec fn page_advance(hs: Seq<nat>, target: int) -> Option<int> {
    page_advance_from(hs, 0, 0, target)
}

/// Heights of the `count` lines starting at line `v`.
pub open spec fn forward_heights(
    plain: Seq<Seq<char>>,
    v: nat,
    count: nat,
    tw: nat,
    wrap: bool,
) -> Seq<nat> {
    Seq::new(count, |i: int| line_height(plain[v + i], tw, wrap))
}

/// Heights of `count` lines walking upward from line `v`, that line
/// itself first.
pub open spec fn backward_heights(
    plain: Seq<Seq<char>>,
    v: nat,
    count: nat,
    tw: nat,
    wrap: bool,
) -> Seq<nat> {
    Seq::new(count, |i: int| line_height(plain[v - i], tw, wrap))
}

/// Total rendered height of the lines `from .. to`.
pub open spec fn range_height(plain: Seq<Seq<char>>, from: int, to: int, tw: nat, wrap: bool) -> nat
    decreases to - from,
{
    if to <= from {
        0
    } else {
        range_height(plain, from, to - 1, tw, wrap) + line_height(plain[to - 1], tw, wrap)
    }
}

/// The vertical offset after a page-forward at text width `tw` in a window
/// of `h` rows.  At most `h` lines below the current top are considered;
/// when they run out before `h` rows accumulate, the view jumps to the last
/// line.
pub open spec fn spec_page_forward(plain: Seq<Seq<char>>, v: nat, tw: nat, h: nat, wrap: bool) -> nat {
    let n = plain.len();
    let avail: nat = if n > v {
        (n - v) as nat
    } else {
        0
    };
    let count: nat = if h < avail {
        h
    } else {
        avail
    };
    let hs = forward_heights(plain, v, count, tw, wrap);
    match page_advance(hs, h as int) {
        Option::Some(c) => if 0 <= c && v + c <= last_index(n) {
            (v + c) as nat
        } else {
            last_index(n)
        },
        Option::None => if sum_prefix(hs, hs.len() as int) < h {
            last_index(n)
        } else {
            v
        },
    }
}

/// The vertical offset after a page-backward: the walk runs upward from
/// the current top line, that line included, until `h` rows accumulate.
/// The last line it counts becomes the new top — dropped again when it
/// overshoots — so the old top line closes the new window fully visible.
/// When the lines run out before `h` rows accumulate, the view jumps to
/// the first line.
pub open spec fn spec_page_backward(plain: Seq<Seq<char>>, v: nat, tw: nat, h: nat, wrap: bool) -> nat {
    let n = plain.len();
    let lines_up: nat = if v + 1 <= n {
        v + 1
    } else {
        n
    };
    let count: nat = if h < lines_up {
        h
    } else {
        lines_up
    };
    let hs = backward_heights(plain, v, count, tw, wrap);
    match page_advance(hs, h as int) {
        Option::Some(c) => if c <= 0 {
            v
        } else if c <= v + 1 {
            (v + 1 - c) as nat
        } else {
            0
        },
        Option::None => if sum_prefix(hs, hs.len() as int) < h {
            0
        } else {
            v
        },
    }
}

/// The vertical offset after resolving the pending command.
pub open spec fn spec_resolved_v(m: ScrollModel, tw: nat, h: nat) -> nat {
    let n = m.lines.len();
    match m.pending {
        ScrollCommand::Idle => m.v_offset,
        ScrollCommand::LineForward => if m.v_offset + 1 <= last_index(n) {
            m.v_offset + 1
        } else {
            m.v_offset
        },
        ScrollCommand::LineBackward => if m.v_offset > 0 {
            (m.v_offset - 1) as nat
        } else {
            0
        },
        ScrollCommand::PageForward => spec_page_forward(m.plain_lines, m.v_offset, tw, h, m.wrap),
        ScrollCommand::PageBackward => spec_page_backward(m.plain_lines, m.v_offset, tw, h, m.wrap),
        ScrollCommand::Top => 0,
        ScrollCommand::End => last_index(n),
        ScrollCommand::ColumnRight => m.v_offset,
        ScrollCommand::ColumnLeft => m.v_offset,
    }
}

/// The horizontal offset after resolving the pending command; clamped to
/// the widest line.
pub open spec fn spec_resolved_h(m: ScrollModel) -> nat {
    match m.pending {
        ScrollCommand::ColumnRight => if m.h_offset + 1 <= last_index(m.max_line_width) {
            m.h_offset + 1
        } else {
            m.h_offset
        },
        ScrollCommand::ColumnLeft => if m.h_offset > 0 {
            (m.h_offset - 1) as nat
        } else {
            0
        },
        _ => m.h_offset,
    }
}

/// The state after one render pass resolves the pending command at text
/// width `tw` in a window of `h` rows: new offsets, command consumed,
/// everything else untouched.
pub open spec fn spec_resolved(m: ScrollModel, tw: nat, h: nat) -> ScrollModel {
    ScrollModel {
        v_offset: spec_resolved_v(m, tw, h),
        h_offset: spec_resolved_h(m),
        pending: ScrollCommand::Idle,
        ..m
    }
}

/// The state after toggling word-wrap: the flag flips and the horizontal
/// pan is reset.
pub open spec fn spec_toggled_wrap(m: ScrollModel) -> ScrollModel {
    ScrollModel { wrap: !m.wrap, h_offset: 0, ..m }
}

/// The gutter cells of one logical line: its label, then one blank row for
/// each wrapped continuation row.
pub open spec fn line_cells(label: Seq<char>, h: nat) -> Seq<Seq<char>> {
    seq![label] + Seq::new(
        if h >= 1 {
            (h - 1) as nat
        } else {
            0
        },
        |i: int| Seq::<char>::empty(),
    )
}

/// The gutter cells of every line from `idx` on, concatenated.
pub open spec fn gutter_cells(
    plain: Seq<Seq<char>>,
    idx: int,
    tw: nat,
    wrap: bool,
    label_w: nat,
) -> Seq<Seq<char>>
    decreases plain.len() - idx,
{
    if idx < 0 || idx >= plain.len() {
        Seq::empty()
    } else {
        line_cells(
            crate::util::number_label((idx + 1) as nat, label_w),
            line_height(plain[idx], tw, wrap),
        ) + gutter_cells(plain, idx + 1, tw, wrap, label_w)
    }
}

/// The gutter cells of the lines `from .. to`, concatenated.
pub open spec fn cells_upto(
    plain: Seq<Seq<char>>,
    from: int,
    to: int,
    tw: nat,
    wrap: bool,
    label_w: nat,
) -> Seq<Seq<char>>
    decreases to - from,
{
    if to <= from {
        Seq::empty()
    } else {
        cells_upto(plain, from, to - 1, tw, wrap, label_w) + line_cells(
            crate::util::number_label(to as nat, label_w),
            line_height(plain[to - 1], tw, wrap),
        )
    }
}

pub proof fn lemma_cells_split(
    plain: Seq<Seq<char>>,
    from: int,
    to: int,
    tw: nat,
    wrap: bool,
    label_w: nat,
)
    requires
        0 <= from <= to <= plain.len(),
    ensures
        gutter_cells(plain, from, tw, wrap, label_w) =~= cells_upto(plain, from, to, tw, wrap, label_w)
            + gutter_cells(plain, to, tw, wrap, label_w),
    decreases to - from,
{
    if to > from {
        lemma_cells_split(plain, from, to - 1, tw, wrap, label_w);
        assert(gutter_cells(plain, to - 1, tw, wrap, label_w) =~= line_cells(
            crate::util::number_label(to as nat, label_w),
            line_height(plain[to - 1], tw, wrap),
        ) + gutter_cells(plain, to, tw, wrap, label_w));
    }
}

/// Truncate or blank-pad a row sequence to exactly `count` rows.
pub open spec fn pad_rows(rows: Seq<Seq<char>>, count: nat) -> Seq<Seq<char>> {
    if rows.len() >= count {
        rows.take(count as int)
    } else {
        rows + Seq::new((count - rows.len()) as nat, |i: int| Seq::<char>::empty())
    }
}

/// The gutter block for a window of `rows` display rows starting at line
/// `v`: the first row of each logical line shows its one-based number
/// right-justified to `label_w` columns; continuation rows of a wrapped
/// line, and rows past the last line, show a blank label.
pub open spec fn spec_gutter_rows(
    plain: Seq<Seq<char>>,
    v: nat,
    tw: nat,
    wrap: bool,
    label_w: nat,
    rows: nat,
) -> Seq<Seq<char>> {
    pad_rows(gutter_cells(plain, v as int, tw, wrap, label_w), rows)
}

#[verifier::loop_isolation(false)]
fn build_gutter_rows(
    plain_lines: &Vec<String>,
    v: usize,
    max_digits: usize,
    width: usize,
    height: usize,
    wrap: bool,
) -> (r: Vec<String>)
    requires
        width >= 1,
        v as nat <= last_index(plain_lines@.len() as nat),
    ensures
        r@.len() == height,
        forall|i: int|
            0 <= i < height ==> r@[i]@ == spec_gutter_rows(
                plain_lines@.map_values(|s: String| s@),
                v as nat,
                width as nat,
                wrap,
                max_digits as nat,
                height as nat,
            )[i],
{
    let ghost plain = plain_lines@.map_values(|s: String| s@);
    let ghost tw = width as nat;
    let ghost lw = max_digits as nat;
    let ghost goal = spec_gutter_rows(plain, v as nat, tw, wrap, lw, height as nat);
    let ghost all = gutter_cells(plain, v as int, tw, wrap, lw);
    let n = plain_lines.len();
    let mut rows: Vec<String> = Vec::new();
    let mut idx: usize = v;
    while idx < n && rows.len() < height
        invariant
            v <= idx <= n,
            rows@.len() <= height,
            rows@.len() as int == vstd::math::min(
                height as int,
                cells_upto(plain, v as int, idx as int, tw, wrap, lw).len() as int,
            ),
            forall|i: int| 0 <= i < rows@.len() ==> rows@[i]@ == goal[i],
        decreases n - idx,
    {
        let ghost cells = cells_upto(plain, v as int, idx as int, tw, wrap, lw);
        proof {
            lemma_cells_split(plain, v as int, idx as int, tw, wrap, lw);
        }
        let hh = crate::wrap::rendered_height(plain_lines[idx].as_str(), width, wrap);
        let ghost lc = line_cells(
            crate::util::number_label((idx + 1) as nat, lw),
            line_height(plain[idx as int], tw, wrap),
        );
        proof {
            assert(lc.len() == hh);
            assert(rows@.len() == cells.len());
            assert(all[cells.len() as int] == lc[0]);
            assert(goal[cells.len() as int] == all[cells.len() as int]);
        }
        let label = crate::util::format_line_number(idx + 1, max_digits);
        rows.push(label);
        let mut b: usize = 1;
        while b < hh && rows.len() < height
            invariant
                1 <= b <= hh,
                rows@.len() <= height,
                rows@.len() as int == vstd::math::min(height as int, cells.len() + b),
                forall|i: int| 0 <= i < rows@.len() ==> rows@[i]@ == goal[i],
            decreases hh - b,
        {
            proof {
                assert(all[cells.len() + b] == lc[b as int]);
                assert(goal[cells.len() + b] == all[cells.len() + b]);
                assert(lc[b as int] =~= Seq::<char>::empty());
            }
            rows.push(String::new());
            b = b + 1;
        }
        proof {
            assert(cells_upto(plain, v as int, idx + 1 as int, tw, wrap, lw) =~= cells + lc);
        }
        idx = idx + 1;
    }
    proof {
        if rows@.len() < height {
            assert(idx == n);
            lemma_cells_split(plain, v as int, n as int, tw, wrap, lw);
            assert(gutter_cells(plain, n as int, tw, wrap, lw) =~= Seq::<Seq<char>>::empty());
            assert(all =~= cells_upto(plain, v as int, n as int, tw, wrap, lw));
        }
    }
    while rows.len() < height
        invariant
            rows@.len() <= height,
            rows@.len() == height || all.len() <= rows@.len(),
            forall|i: int| 0 <= i < rows@.len() ==> rows@[i]@ == goal[i],
        decreases height - rows@.len(),
    {
        proof {
            assert(all.len() < height);
            assert(goal[rows@.len() as int] =~= Seq::<char>::empty());
        }
        rows.push(String::new());
    }
    rows
}

#[verifier::loop_isolation(false)]
fn page_forward_dest(plain_lines: &Vec<String>, v: usize, width: usize, height: usize, wrap: bool) -> (r: usize)
    requires
        width >= 1,
        v as nat <= last_index(plain_lines@.len() as nat),
    ensures
        r as nat == spec_page_forward(
            plain_lines@.map_values(|s: String| s@),
            v as nat,
            width as nat,
            height as nat,
            wrap,
        ),
        r as nat <= last_index(plain_lines@.len() as nat),
{
    let ghost plain = plain_lines@.map_values(|s: String| s@);
    let n = plain_lines.len();
    let avail = n - v;
    let count = if height < avail {
        height
    } else {
        avail
    };
    let ghost hs = forward_heights(plain, v as nat, count as nat, width as nat, wrap);
    let mut heights: Vec<usize> = Vec::new();
    let mut i: usize = 0;
    while i < count
        invariant
            i <= count,
            heights@.len() == i,
            forall|j: int| 0 <= j < i ==> heights@[j] as nat == hs[j],
        decreases count - i,
    {
        let hh = crate::wrap::rendered_height(plain_lines[v + i].as_str(), width, wrap);
        heights.push(hh);
        i = i + 1;
    }
    let mut k: usize = 0;
    let mut acc: usize = 0;
    let mut found = false;
    let mut consumed: usize = 0;
    while k < count && !found
        invariant
            k <= count,
            !found ==> acc <= height,
            !found ==> acc == sum_prefix(hs, k as int),
            !found ==> page_advance(hs, height as int) == page_advance_from(
                hs,
                k as int,
                acc as int,
                height as int,
            ),
            found ==> page_advance(hs, height as int) == Option::Some(consumed as int),
            found ==> consumed <= count,
        decreases count - k, (if found {
            0int
        } else {
            1int
        }),
    {
        let hh = heights[k];
        if hh >= height - acc {
            found = true;
            consumed = if hh > height - acc {
                k
            } else {
                k + 1
            };
        } else {
            acc = acc + hh;
            k = k + 1;
        }
    }
    if found {
        let dest = v + consumed;
        let li = if n == 0 {
            0
        } else {
            n - 1
        };
        if dest <= li {
            dest
        } else {
            li
        }
    } else {
        proof {
            assert(page_advance(hs, height as int) is None);
            assert(hs.len() == count);
        }
        if acc < height {
            if n == 0 {
                0
            } else {
                n - 1
            }
        } else {
            v
        }
    }
}

#[verifier::loop_isolation(false)]
fn page_backward_dest(plain_lines: &Vec<String>, v: usize, width: usize, height: usize, wrap: bool) -> (r: usize)
    requires
        width >= 1,
        v as nat <= last_index(plain_lines@.len() as nat),
    ensures
        r as nat == spec_page_backward(
            plain_lines@.map_values(|s: String| s@),
            v as nat,
            width as nat,
            height as nat,
            wrap,
        ),
        r <= v,
{
    let ghost plain = plain_lines@.map_values(|s: String| s@);
    let n = plain_lines.len();
    let lines_up = if n == 0 {
        0
    } else {
        v + 1
    };
    let count = if height < lines_up {
        height
    } else {
        lines_up
    };
    let ghost hs = backward_heights(plain, v as nat, count as nat, width as nat, wrap);
    let mut heights: Vec<usize> = Vec::new();
    let mut i: usize = 0;
    while i < count
        invariant
            i <= count,
            heights@.len() == i,
            forall|j: int| 0 <= j < i ==> heights@[j] as nat == hs[j],
        decreases count - i,
    {
        let hh = crate::wrap::rendered_height(plain_lines[v - i].as_str(), width, wrap);
        heights.push(hh);
        i = i + 1;
    }
    let mut k: usize = 0;
    let mut acc: usize = 0;
    let mut found = false;
    let mut consumed: usize = 0;
    while k < count && !found
        invariant
            k <= count,
            !found ==> acc <= height,
            !found ==> acc == sum_prefix(hs, k as int),
            !found ==> page_advance(hs, height as int) == page_advance_from(
                hs,
                k as int,
                acc as int,
                height as int,
            ),
            found ==> page_advance(hs, height as int) == Option::Some(consumed as int),
            found ==> consumed <= count,
        decreases count - k, (if found {
            0int
        } else {
            1int
        }),
    {
        let hh = heights[k];
        if hh >= height - acc {
            found = true;
            consumed = if hh > height - acc {
                k
            } else {
                k + 1
            };
        } else {
            acc = acc + hh;
            k = k + 1;
        }
    }
    if found {
        if consumed == 0 {
            v
        } else {
            v + 1 - consumed
        }
    } else {
        proof {
            assert(page_advance(hs, height as int) is None);
            assert(hs.len() == count);
        }
        if acc < height {
            0
        } else {
            v
        }
    }
}

fn max_line_width_exec(lines: &Vec<StyledLine>) -> (r: usize)
    ensures
        r == sat_usize(max_width(lines@.map_values(|l: StyledLine| l@))),
{
    let ghost view = lines@.map_values(|l: StyledLine| l@);
    let mut w: usize = 0;
    let mut i: usize = 0;
    while i < lines.len()
        invariant
            i <= lines.len(),
            view == lines@.map_values(|l: StyledLine| l@),
            w == sat_usize(max_width(view.take(i as int))),
        decreases lines.len() - i,
    {
        proof {
            assert(view.take(i + 1 as int).drop_last() =~= view.take(i as int));
            assert(view.take(i + 1 as int).last() == view[i as int]);
        }
        let lw = lines[i].width();
        if lw > w {
            w = lw;
        }
        i = i + 1;
    }
    proof {
        assert(view.take(lines@.len() as int) =~= view);
    }
    w
}

impl ScrollLinesState {
    /// Fresh scroll state for newly loaded content.  `lines` carry the
    /// styling used for display; `original_lines` the same text unstyled,
    /// used for width measurement.  Both offsets start at zero and no
    /// command is pending.
    pub fn new(
        lines: Vec<StyledLine>,
        original_lines: Vec<String>,
        title: String,
        options: ScrollLinesOptions,
    ) -> (r: ScrollLinesState)
        requires
            lines@.len() == original_lines@.len(),
        ensures
            wf(r@),
            r@ == (ScrollModel {
                lines: lines@.map_values(|l: StyledLine| l@),
                plain_lines: original_lines@.map_values(|s: String| s@),
                max_digits: digit_count(lines@.len() as nat),
                max_line_width: sat_usize(max_width(lines@.map_values(|l: StyledLine| l@))),
                v_offset: 0,
                h_offset: 0,
                number: options.number,
                wrap: options.wrap,
                title: title@,
                pending: ScrollCommand::Idle,
            }),
    {
        let max_digits = crate::util::digits(lines.len());
        let max_line_width = max_line_width_exec(&lines);
        let r = ScrollLinesState {
            lines,
            original_lines,
            max_digits,
            max_line_width,
            v_offset: 0,
            h_offset: 0,
            options,
            title,
            pending_command: ScrollCommand::Idle,
        };
        r
    }

    /// Request a one-line scroll forward.
    pub fn scroll_forward(&mut self)
        ensures
            final(self)@ == (ScrollModel { pending: ScrollCommand::LineForward, ..old(self)@ }),
            wf(old(self)@) ==> wf(final(self)@),
    {
        self.pending_command = ScrollCommand::LineForward;
    }

    /// Request a one-line scroll backward.
    pub fn scroll_backward(&mut self)
        ensures
            final(self)@ == (ScrollModel { pending: ScrollCommand::LineBackward, ..old(self)@ }),
            wf(old(self)@) ==> wf(final(self)@),
    {
        self.pending_command = ScrollCommand::LineBackward;
    }

    /// Request a full-page scroll forward.
    pub fn scroll_page_forward(&mut self)
        ensures
            final(self)@ == (ScrollModel { pending: ScrollCommand::PageForward, ..old(self)@ }),
            wf(old(self)@) ==> wf(final(self)@),
    {
        self.pending_command = ScrollCommand::PageForward;
    }

    /// Request a full-page scroll backward.
    pub fn scroll_page_backward(&mut self)
        ensures
            final(self)@ == (ScrollModel { pending: ScrollCommand::PageBackward, ..old(self)@ }),
            wf(old(self)@) ==> wf(final(self)@),
    {
        self.pending_command = ScrollCommand::PageBackward;
    }

    /// Request a jump to the first line.
    pub fn scroll_to_top(&mut self)
        ensures
            final(self)@ == (ScrollModel { pending: ScrollCommand::Top, ..old(self)@ }),
            wf(old(self)@) ==> wf(final(self)@),
    {
        self.pending_command = ScrollCommand::Top;
    }

    /// Request a jump to the last line.
    pub fn scroll_to_end(&mut self)
        ensures
            final(self)@ == (ScrollModel { pending: ScrollCommand::End, ..old(self)@ }),
            wf(old(self)@) ==> wf(final(self)@),
    {
        self.pending_command = ScrollCommand::End;
    }

    /// Request a one-column pan to the right (meaningful with wrap off).
    pub fn scroll_right(&mut self)
        ensures
            final(self)@ == (ScrollModel { pending: ScrollCommand::ColumnRight, ..old(self)@ }),
            wf(old(self)@) ==> wf(final(self)@),
    {
        self.pending_command = ScrollCommand::ColumnRight;
    }

    /// Request a one-column pan to the left.
    pub fn scroll_left(&mut self)
        ensures
            final(self)@ == (ScrollModel { pending: ScrollCommand::ColumnLeft, ..old(self)@ }),
            wf(old(self)@) ==> wf(final(self)@),
    {
        self.pending_command = ScrollCommand::ColumnLeft;
    }

    /// Toggle word-wrap.  The horizontal pan is reset to zero so that
    /// leaving wrap mode never starts from a stale pan.
    pub fn toggle_wrap(&mut self)
        ensures
            final(self)@ == spec_toggled_wrap(old(self)@),
            wf(old(self)@) ==> wf(final(self)@),
    {
        self.options.wrap = !self.options.wrap;
        self.h_offset = 0;
    }

    /// Toggle the line-number gutter; offsets are untouched.
    pub fn toggle_number(&mut self)
        ensures
            final(self)@ == (ScrollModel { number: !old(self)@.number, ..old(self)@ }),
            wf(old(self)@) ==> wf(final(self)@),
    {
        self.options.number = !self.options.number;
    }

    /// Resolve the pending command against the given text width and window
    /// height, then clear it.
    #[verifier::loop_isolation(false)]
    fn handle_scroll_events(&mut self, width: usize, height: usize)
        requires
            width >= 1,
            wf(old(self)@),
        ensures
            final(self)@ == spec_resolved(old(self)@, width as nat, height as nat),
            wf(final(self)@),
    {
        let n = self.lines.len();
        match self.pending_command {
            ScrollCommand::Idle => {},
            ScrollCommand::LineForward => {
                let li = if n == 0 {
                    0
                } else {
                    n - 1
                };
                if self.v_offset < li {
                    self.v_offset = self.v_offset + 1;
                }
            },
            ScrollCommand::LineBackward => {
                if self.v_offset > 0 {
                    self.v_offset = self.v_offset - 1;
                }
            },
            ScrollCommand::PageForward => {
                self.v_offset = page_forward_dest(
                    &self.original_lines,
                    self.v_offset,
                    width,
                    height,
                    self.options.wrap,
                );
            },
            ScrollCommand::PageBackward => {
                self.v_offset = page_backward_dest(
                    &self.original_lines,
                    self.v_offset,
                    width,
                    height,
                    self.options.wrap,
                );
            },
            ScrollCommand::Top => {
                self.v_offset = 0;
            },
            ScrollCommand::End => {
                self.v_offset = if n == 0 {
                    0
                } else {
                    n - 1
                };
            },
            ScrollCommand::ColumnRight => {
                let li = if self.max_line_width == 0 {
                    0
                } else {
                    self.max_line_width - 1
                };
                if self.h_offset < li {
                    self.h_offset = self.h_offset + 1;
                }
            },
            ScrollCommand::ColumnLeft => {
                if self.h_offset > 0 {
                    self.h_offset = self.h_offset - 1;
                }
            },
        }
        self.pending_command = ScrollCommand::Idle;
    }

    /// Current vertical offset: the index of the top logical line.
    pub fn vertical_offset(&self) -> (r: usize)
        ensures
            r == self@.v_offset,
    {
        self.v_offset
    }

    /// Current horizontal offset: the leftmost visible column with wrap off.
    pub fn horizontal_offset(&self) -> (r: usize)
        ensures
            r == self@.h_offset,
    {
        self.h_offset
    }

    /// Current display options.
    pub fn options(&self) -> (r: ScrollLinesOptions)
        ensures
            r.number == self@.number,
            r.wrap == self@.wrap,
    {
        self.options
    }

    /// The title shown by the surrounding frame.
    pub fn title(&self) -> (r: &String)
        ensures
            r@ == self@.title,
    {
        &self.title
    }

    /// The number of logical lines.
    pub fn line_count(&self) -> (r: usize)
        ensures
            r == self@.lines.len(),
    {
        self.lines.len()
    }

    /// The width of the widest line, as cached at construction.
    pub fn max_line_width(&self) -> (r: usize)
        ensures
            r == self@.max_line_width,
    {
        self.max_line_width
    }
}

/// The two content blocks of one render pass, ready for a generic paint
/// step: the gutter rows, and the body lines with their pan and wrap
/// parameters.
#[derive(Debug)]
pub struct ScrollLinesRender {
    /// Columns taken by the gutter block; zero when numbering is off.
    pub gutter_width: usize,
    /// One label per display row; empty when numbering is off.
    pub gutter_rows: Vec<String>,
    /// The styled lines of the visible window, top line first.
    pub body_lines: Vec<StyledLine>,
    /// Columns available to the body text.
    pub text_width: usize,
    /// First visible column of each body line when wrap is off.
    pub horizontal_offset: usize,
    /// Whether the renderer should word-wrap the body at `text_width`.
    pub wrap: bool,
    /// The frame title.
    pub title: String,
}

/// The scroll-lines widget.  One render pass resolves the pending command
/// of a [`ScrollLinesState`] and lays out the gutter and body blocks for a
/// content area of `width` columns by `height` rows.
#[derive(Debug, PartialEq, Eq, Structural)]
pub struct ScrollLines {}

impl Default for ScrollLines {
    fn default() -> (r: Self)
        ensures
            r == (ScrollLines {  }),
    {
        ScrollLines {  }
    }
}

impl ScrollLines {
    /// Resolve the pending command of `state` and assemble the content
    /// blocks.  The gutter and the body share the same text width, so
    /// their wrap computations stay in step.
    pub fn render(self, width: usize, height: usize, state: &mut ScrollLinesState) -> (r:
        ScrollLinesRender)
        requires
            wf(old(state)@),
        ensures
            ({
                let tw = spec_text_width(old(state)@, width as nat);
                let m = spec_resolved(old(state)@, tw, height as nat);
                let n = m.lines.len();
                let upper: int = if m.v_offset + height < n {
                    m.v_offset + height
                } else {
                    n as int
                };
                &&& final(state)@ == m
                &&& wf(final(state)@)
                &&& r.text_width as nat == tw
                &&& r.text_width >= 1
                &&& r.gutter_width as nat == spec_gutter_width(m)
                &&& m.number ==> r.gutter_rows@.len() == height
                &&& m.number ==> forall|i: int|
                    0 <= i < height ==> r.gutter_rows@[i]@ == spec_gutter_rows(
                        m.plain_lines,
                        m.v_offset,
                        tw,
                        m.wrap,
                        m.max_digits,
                        height as nat,
                    )[i]
                &&& !m.number ==> r.gutter_rows@.len() == 0
                &&& r.body_lines@.map_values(|l: StyledLine| l@) == m.lines.subrange(
                    m.v_offset as int,
                    upper,
                )
                &&& r.horizontal_offset == m.h_offset
                &&& r.wrap == m.wrap
                &&& r.title@ == m.title
            }),
    {
        proof {
            crate::util::lemma_digit_count_usize(old(state)@.lines.len());
        }
        let gw: usize = if state.options.number {
            state.max_digits + 1
        } else {
            0
        };
        let tw: usize = if width >= gw + 3 {
            width - gw - 2
        } else {
            1
        };
        state.handle_scroll_events(tw, height);
        let gutter_rows: Vec<String> = if state.options.number {
            build_gutter_rows(
                &state.original_lines,
                state.v_offset,
                state.max_digits,
                tw,
                height,
                state.options.wrap,
            )
        } else {
            Vec::new()
        };
        let n = state.lines.len();
        let v = state.v_offset;
        let upper = if height < n - v {
            v + height
        } else {
            n
        };
        let mut body: Vec<StyledLine> = Vec::new();
        let mut i: usize = v;
        while i < upper
            invariant
                v <= i <= upper <= n,
                n == state.lines@.len(),
                body@.len() == i - v,
                forall|j: int| 0 <= j < body@.len() ==> body@[j]@ == state.lines@[v + j]@,
            decreases upper - i,
        {
            body.push(state.lines[i].duplicate());
            i = i + 1;
        }
        proof {
            assert(body@.map_values(|l: StyledLine| l@) =~= state@.lines.subrange(
                v as int,
                upper as int,
            ));
        }
        ScrollLinesRender {
            gutter_width: gw,
            gutter_rows,
            body_lines: body,
            text_width: tw,
            horizontal_offset: state.h_offset,
            wrap: state.options.wrap,
            title: state.title.clone(),
        }
    }
}

} // verus!
