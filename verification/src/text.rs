//! The styled-line model: a display line is a sequence of coloured text
//! spans.  The viewer only measures and slices these lines; interpreting the
//! colours is left to the embedding renderer.

use vstd::prelude::*;

verus! {

/// Colour of a text span.  The embedding renderer maps each variant to a
/// concrete terminal colour.
#[derive(Clone, Copy, Debug, PartialEq, Eq, Structural)]
pub enum SpanColor {
    Default,
    Blue,
    DarkGray,
}

/// One styled fragment of a display line.
#[derive(Clone, Debug, PartialEq)]
pub struct Span {
    pub content: String,
    pub color: SpanColor,
}

/// Mathematical model of a [`Span`]: its characters and its colour.
pub ghost struct SpanModel {
    pub content: Seq<char>,
    pub color: SpanColor,
}

impl View for Span {
    type V = SpanModel;

    open spec fn view(&self) -> SpanModel {
        SpanModel { content: self.content@, color: self.color }
    }
}

/// One display line: an ordered sequence of styled spans.
#[derive(Clone, Debug, PartialEq)]
pub struct StyledLine {
    pub spans: Vec<Span>,
}

impl View for StyledLine {
    type V = Seq<SpanModel>;

    open spec fn view(&self) -> Seq<SpanModel> {
        self.spans@.map_values(|s: Span| s@)
    }
}

/// Width of a line model: the total number of characters over its spans.
pub open spec fn line_width(line: Seq<SpanModel>) -> nat
    decreases line.len(),
{
    if line.len() == 0 {
        0
    } else {
        line_width(line.drop_last()) + line.last().content.len()
    }
}

impl Span {
    /// A span of plain, default-coloured text.
    pub fn raw(content: String) -> (r: Span)
        ensures
            r@ == (SpanModel { content: content@, color: SpanColor::Default }),
    {
        Span { content, color: SpanColor::Default }
    }

    /// A span of coloured text.
    pub fn colored(content: String, color: SpanColor) -> (r: Span)
        ensures
            r@ == (SpanModel { content: content@, color }),
    {
        Span { content, color }
    }
}

impl Span {
    /// A copy of this span, with the same content and colour.
    pub fn duplicate(&self) -> (r: Span)
        ensures
            r@ == self@,
    {
        Span { content: self.content.clone(), color: self.color }
    }
}

impl StyledLine {
    /// A line holding a single plain span.
    pub fn raw(content: String) -> (r: StyledLine)
        ensures
            r@ =~= seq![SpanModel { content: content@, color: SpanColor::Default }],
    {
        let spans = vec![Span::raw(content)];
        StyledLine { spans }
    }

    /// A line holding a single coloured span.
    pub fn colored(content: String, color: SpanColor) -> (r: StyledLine)
        ensures
            r@ =~= seq![SpanModel { content: content@, color }],
    {
        let spans = vec![Span::colored(content, color)];
        StyledLine { spans }
    }

    /// A copy of this line, with the same spans.
    pub fn duplicate(&self) -> (r: StyledLine)
        ensures
            r@ == self@,
    {
        let mut spans: Vec<Span> = Vec::new();
        let mut i: usize = 0;
        while i < self.spans.len()
            invariant
                i <= self.spans.len(),
                spans@.len() == i,
                forall|j: int| 0 <= j < i ==> spans@[j]@ == self@[j],
            decreases self.spans.len() - i,
        {
            spans.push(self.spans[i].duplicate());
            i = i + 1;
        }
        let r = StyledLine { spans };
        proof {
            assert(r@ =~= self@);
        }
        r
    }

    /// The width of the line in characters, saturated at `usize::MAX`.
    pub fn width(&self) -> (r: usize)
        ensures
            r == crate::util::sat_usize(line_width(self@)),
    {
        let mut w: usize = 0;
        let mut i: usize = 0;
        while i < self.spans.len()
            invariant
                i <= self.spans.len(),
                w == crate::util::sat_usize(line_width(self@.take(i as int))),
            decreases self.spans.len() - i,
        {
            proof {
                assert(self@.take(i + 1 as int).drop_last() =~= self@.take(i as int));
                assert(self@.take(i + 1 as int).last() == self@[i as int]);
            }
            let sw = self.spans[i].content.as_str().unicode_len();
            w = if w > usize::MAX - sw {
                usize::MAX
            } else {
                w + sw
            };
            i = i + 1;
        }
        proof {
            assert(self@.take(self.spans.len() as int) =~= self@);
        }
        w
    }
}

} // verus!
