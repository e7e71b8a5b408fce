//! Laws of the viewport engine, proved once and for all states: the scroll
//! round trips and the paging landing guarantee.

use vstd::prelude::*;

use crate::scroll::{
    ScrollCommand, ScrollModel, backward_heights, forward_heights, last_index, page_advance,
    page_advance_from, range_height, spec_resolved, spec_toggled_wrap, sum_prefix, wf,
};
use crate::wrap::line_height;

verus! {

/// Law: jumping to the top, then to the end, then to the top again — each
/// jump resolved by a render pass, at any dimensions — always leaves the
/// vertical offset at zero, and the first jump alone already does.
pub proof fn lemma_top_end_top_round_trip(
    m: ScrollModel,
    tw1: nat,
    h1: nat,
    tw2: nat,
    h2: nat,
    tw3: nat,
    h3: nat,
)
    ensures
        ({
            let m1 = spec_resolved(ScrollModel { pending: ScrollCommand::Top, ..m }, tw1, h1);
            let m2 = spec_resolved(ScrollModel { pending: ScrollCommand::End, ..m1 }, tw2, h2);
            let m3 = spec_resolved(ScrollModel { pending: ScrollCommand::Top, ..m2 }, tw3, h3);
            m1.v_offset == 0 && m3.v_offset == 0
        }),
{
}

/// Law: toggling word-wrap twice restores the wrap flag and leaves the
/// horizontal offset at zero after each toggle; nothing else changes.
pub proof fn lemma_toggle_wrap_twice(m: ScrollModel)
    ensures
        spec_toggled_wrap(m).h_offset == 0,
        spec_toggled_wrap(spec_toggled_wrap(m)).h_offset == 0,
        spec_toggled_wrap(spec_toggled_wrap(m)).wrap == m.wrap,
        spec_toggled_wrap(spec_toggled_wrap(m)) == (ScrollModel { h_offset: 0, ..m }),
{
}

pub proof fn lemma_sum_prefix_lower(hs: Seq<nat>, k: int)
    requires
        0 <= k <= hs.len(),
        forall|i: int| 0 <= i < hs.len() ==> hs[i] >= 1,
    ensures
        sum_prefix(hs, k) >= k,
    decreases k,
{
    if k > 0 {
        lemma_sum_prefix_lower(hs, k - 1);
    }
}

/// What a successful page walk guarantees: the corrected count `c` fits
/// within the target, and when it fits strictly, one more line would have
/// overshot.
pub proof fn lemma_page_advance_some(hs: Seq<nat>, k: int, t: int, c: int)
    requires
        0 <= k <= hs.len(),
        sum_prefix(hs, k) <= t,
        page_advance_from(hs, k, sum_prefix(hs, k) as int, t) == Option::Some(c),
    ensures
        k <= c <= hs.len(),
        sum_prefix(hs, c) <= t,
        sum_prefix(hs, c) < t ==> c < hs.len() && sum_prefix(hs, c + 1) > t,
    decreases hs.len() - k,
{
    let acc2 = sum_prefix(hs, k) + hs[k];
    assert(acc2 == sum_prefix(hs, k + 1));
    if acc2 >= t {
        if acc2 > t {
            assert(c == k);
        } else {
            assert(c == k + 1);
        }
    } else {
        lemma_page_advance_some(hs, k + 1, t, c);
    }
}

/// A page walk comes back empty only when every entry together still
/// falls short of the target.
pub proof fn lemma_page_advance_none(hs: Seq<nat>, k: int, t: int)
    requires
        0 <= k <= hs.len(),
        page_advance_from(hs, k, sum_prefix(hs, k) as int, t) == Option::<int>::None,
    ensures
        k < hs.len() ==> sum_prefix(hs, hs.len() as int) < t,
    decreases hs.len() - k,
{
    if k < hs.len() {
        let acc2 = sum_prefix(hs, k) + hs[k];
        assert(acc2 == sum_prefix(hs, k + 1));
        assert(acc2 < t);
        if k + 1 < hs.len() {
            lemma_page_advance_none(hs, k + 1, t);
        }
    }
}

pub proof fn lemma_range_height_split(
    plain: Seq<Seq<char>>,
    from: int,
    mid: int,
    to: int,
    tw: nat,
    wrap: bool,
)
    requires
        from <= mid <= to,
    ensures
        range_height(plain, from, to, tw, wrap) == range_height(plain, from, mid, tw, wrap)
            + range_height(plain, mid, to, tw, wrap),
    decreases to - mid,
{
    if to > mid {
        lemma_range_height_split(plain, from, mid, to - 1, tw, wrap);
    }
}

pub proof fn lemma_range_height_lower(plain: Seq<Seq<char>>, from: int, to: int, tw: nat, wrap: bool)
    requires
        from <= to,
    ensures
        range_height(plain, from, to, tw, wrap) >= to - from,
    decreases to - from,
{
    if to > from {
        lemma_range_height_lower(plain, from, to - 1, tw, wrap);
    }
}

pub proof fn lemma_forward_window_sum(
    plain: Seq<Seq<char>>,
    v: nat,
    count: nat,
    tw: nat,
    wrap: bool,
    k: int,
)
    requires
        0 <= k <= count,
        v + count <= plain.len(),
    ensures
        sum_prefix(forward_heights(plain, v, count, tw, wrap), k) == range_height(
            plain,
            v as int,
            v + k,
            tw,
            wrap,
        ),
    decreases k,
{
    if k > 0 {
        lemma_forward_window_sum(plain, v, count, tw, wrap, k - 1);
    }
}

pub proof fn lemma_backward_window_sum(
    plain: Seq<Seq<char>>,
    v: nat,
    count: nat,
    tw: nat,
    wrap: bool,
    k: int,
)
    requires
        0 <= k <= count,
        count <= v + 1,
        v < plain.len(),
    ensures
        sum_prefix(backward_heights(plain, v, count, tw, wrap), k) == range_height(
            plain,
            v + 1 - k,
            (v + 1) as int,
            tw,
            wrap,
        ),
    decreases k,
{
    if k > 0 {
        lemma_backward_window_sum(plain, v, count, tw, wrap, k - 1);
        lemma_range_height_split(plain, v + 1 - k, v + 1 - (k - 1), (v + 1) as int, tw, wrap);
        assert(range_height(plain, v + 1 - k, v + 1 - k, tw, wrap) == 0);
        assert(range_height(plain, v + 1 - k, v + 1 - (k - 1), tw, wrap) == line_height(
            plain[v + 1 - k],
            tw,
            wrap,
        ));
    }
}

/// Law: one page-backward, resolved at any width and any height of at
/// least one row, lands at or above the old top line and keeps it fully
/// visible: the rows from the new top through the old top fit within the
/// window.  No earlier top would do — starting one line further up would
/// overflow it.  This holds whenever the old top line is itself no taller
/// than the window.
pub proof fn lemma_page_backward_landing(m: ScrollModel, tw: nat, h: nat)
    requires
        wf(m),
        m.pending == ScrollCommand::PageBackward,
        h >= 1,
        m.lines.len() >= 1,
        line_height(m.plain_lines[m.v_offset as int], tw, m.wrap) <= h,
    ensures
        ({
            let t = spec_resolved(m, tw, h).v_offset;
            &&& t <= m.v_offset
            &&& range_height(m.plain_lines, t as int, (m.v_offset + 1) as int, tw, m.wrap) <= h
            &&& (t >= 1 ==> range_height(m.plain_lines, t - 1, (m.v_offset + 1) as int, tw, m.wrap)
                > h)
        }),
{
    let plain = m.plain_lines;
    let n = plain.len();
    let v = m.v_offset;
    let wrap = m.wrap;
    let t = spec_resolved(m, tw, h).v_offset;
    let count: nat = if h < v + 1 {
        h
    } else {
        (v + 1) as nat
    };
    let hs = backward_heights(plain, v, count, tw, wrap);
    assert(forall|i: int| 0 <= i < hs.len() ==> #[trigger] hs[i] >= 1);
    assert(count >= 1);
    match page_advance(hs, h as int) {
        Option::Some(c) => {
            lemma_page_advance_some(hs, 0, h as int, c);
            if c == 0 {
                assert(sum_prefix(hs, 1) == hs[0]);
                assert(hs[0] == line_height(plain[v as int], tw, wrap));
                assert(false);
            }
            lemma_backward_window_sum(plain, v, count, tw, wrap, c);
            assert(t == v + 1 - c);
            assert(range_height(plain, t as int, (v + 1) as int, tw, wrap) <= h);
            if t >= 1 {
                if sum_prefix(hs, c) == h {
                    lemma_range_height_split(plain, t - 1, t as int, (v + 1) as int, tw, wrap);
                    assert(range_height(plain, t - 1, t - 1, tw, wrap) == 0);
                    assert(range_height(plain, t - 1, t as int, tw, wrap) == line_height(
                        plain[t - 1],
                        tw,
                        wrap,
                    ));
                } else {
                    assert(c < count && sum_prefix(hs, c + 1) > h);
                    lemma_backward_window_sum(plain, v, count, tw, wrap, c + 1);
                }
            }
        },
        Option::None => {
            lemma_page_advance_none(hs, 0, h as int);
            assert(sum_prefix(hs, hs.len() as int) < h);
            if count == h {
                lemma_sum_prefix_lower(hs, h as int);
                assert(false);
            }
            assert(count == v + 1);
            lemma_backward_window_sum(plain, v, count, tw, wrap, count as int);
            assert(t == 0);
            assert(range_height(plain, 0, (v + 1) as int, tw, wrap) <= h);
        },
    }
}

/// Law: a page-forward followed by a page-backward, resolved at the same
/// width and height, returns to a top at or above the starting one with
/// the starting top line fully visible again — whenever the stretch from
/// the starting top line through the landing top line fits within one
/// window, as it does in particular whenever the forward walk runs into
/// the end of the content.
pub proof fn lemma_page_scroll_round_trip(m: ScrollModel, tw: nat, h: nat)
    requires
        wf(m),
        m.pending == ScrollCommand::PageForward,
        h >= 1,
        m.lines.len() >= 1,
        ({
            let m1 = spec_resolved(m, tw, h);
            range_height(
                m.plain_lines,
                m.v_offset as int,
                (m1.v_offset + 1) as int,
                tw,
                m.wrap,
            ) <= h
        }),
    ensures
        ({
            let m1 = spec_resolved(m, tw, h);
            let m2 = spec_resolved(ScrollModel { pending: ScrollCommand::PageBackward, ..m1 }, tw, h);
            &&& m2.v_offset <= m.v_offset
            &&& range_height(m.plain_lines, m2.v_offset as int, (m.v_offset + 1) as int, tw, m.wrap) <= h
        }),
{
    let plain = m.plain_lines;
    let n = plain.len();
    let v = m.v_offset;
    let wrap = m.wrap;
    let m1 = spec_resolved(m, tw, h);
    let v1 = m1.v_offset;
    let m2 = spec_resolved(ScrollModel { pending: ScrollCommand::PageBackward, ..m1 }, tw, h);
    let v2 = m2.v_offset;
    let rr = range_height(plain, v as int, (v1 + 1) as int, tw, wrap);

    // the forward walk never lands above its start or past the last line
    assert(v <= v1 <= last_index(n)) by {
        match page_advance(
            forward_heights(
                plain,
                v,
                if h < (n - v) as nat {
                    h
                } else {
                    (n - v) as nat
                },
                tw,
                wrap,
            ),
            h as int,
        ) {
            Option::Some(c) => {},
            Option::None => {},
        }
    }
    lemma_range_height_split(plain, v as int, (v + 1) as int, (v1 + 1) as int, tw, wrap);
    assert(range_height(plain, v as int, v as int, tw, wrap) == 0);
    assert(range_height(plain, v as int, (v + 1) as int, tw, wrap) == line_height(
        plain[v as int],
        tw,
        wrap,
    ));
    let up = range_height(plain, (v + 1) as int, (v1 + 1) as int, tw, wrap);
    assert(up <= h - 1);

    // the backward walk from the landing top
    let d = v1 - v;
    let count_b: nat = if h < v1 + 1 {
        h
    } else {
        (v1 + 1) as nat
    };
    let hs_b = backward_heights(plain, v1, count_b, tw, wrap);
    assert(forall|i: int| 0 <= i < hs_b.len() ==> #[trigger] hs_b[i] >= 1);
    assert(count_b >= 1);
    // every prefix of the walk that stays above the old top falls short
    assert(forall|k: int|
        0 <= k <= d && k <= count_b ==> #[trigger] sum_prefix(hs_b, k) < h) by {
        assert forall|k: int| 0 <= k <= d && k <= count_b implies #[trigger] sum_prefix(
            hs_b,
            k,
        ) < h by {
            lemma_backward_window_sum(plain, v1, count_b, tw, wrap, k);
            lemma_range_height_split(plain, (v + 1) as int, v1 + 1 - k, (v1 + 1) as int, tw, wrap);
        }
    }
    match page_advance(hs_b, h as int) {
        Option::Some(cb) => {
            lemma_page_advance_some(hs_b, 0, h as int, cb);
            lemma_backward_window_sum(plain, v1, count_b, tw, wrap, cb);
            if cb <= d {
                if sum_prefix(hs_b, cb) == h {
                    assert(false);
                } else {
                    assert(cb < count_b && sum_prefix(hs_b, cb + 1) > h);
                    if cb + 1 <= d {
                        assert(false);
                    } else {
                        assert(cb + 1 == d + 1);
                        lemma_backward_window_sum(plain, v1, count_b, tw, wrap, cb + 1);
                        assert(sum_prefix(hs_b, cb + 1) == rr);
                        assert(false);
                    }
                }
            }
            assert(cb >= d + 1);
            assert(v2 == v1 + 1 - cb);
            assert(v2 <= v);
            lemma_range_height_split(plain, v2 as int, (v + 1) as int, (v1 + 1) as int, tw, wrap);
            assert(range_height(plain, v2 as int, (v + 1) as int, tw, wrap) <= h);
        },
        Option::None => {
            lemma_page_advance_none(hs_b, 0, h as int);
            assert(sum_prefix(hs_b, hs_b.len() as int) < h);
            if count_b == h {
                lemma_sum_prefix_lower(hs_b, h as int);
                assert(false);
            }
            assert(count_b == v1 + 1);
            lemma_backward_window_sum(plain, v1, count_b, tw, wrap, count_b as int);
            assert(v2 == 0);
            lemma_range_height_split(plain, 0, (v + 1) as int, (v1 + 1) as int, tw, wrap);
            assert(range_height(plain, 0, (v + 1) as int, tw, wrap) <= h);
        },
    }
}

} // verus!
