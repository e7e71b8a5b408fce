//! The word-wrap height model.
//!
//! The engine never re-implements word wrapping: it asks the `textwrap`
//! crate how many rows a line occupies at a given width, and reasons about
//! that count through the uninterpreted function [`wrap_height`].

use vstd::prelude::*;

verus! {

/// The number of rows that the word-wrap algorithm produces for the text
/// `s` at column width `width`.  A function of its arguments alone.
pub uninterp spec fn wrap_height(s: Seq<char>, width: nat) -> nat;

/// Rendered height of one logical line: one row when wrap is off, else the
/// wrapped height; never less than one row.
pub open spec fn line_height(s: Seq<char>, width: nat, wrap: bool) -> nat {
    if wrap {
        if wrap_height(s, width) >= 1 {
            wrap_height(s, width)
        } else {
            1
        }
    } else {
        1
    }
}

/// Relies on textwrap::wrap: the wrapped pieces depend on the text and the
/// width alone, and at least one piece comes back for every line of input,
/// an empty line included.
#[verifier::external_body]
fn wrapped_height(line: &str, width: usize) -> (r: usize)
    requires
        width >= 1,
    ensures
        r == wrap_height(line@, width as nat),
        r >= 1,
{
    textwrap::wrap(line, width).len()
}

/// Rendered height of `line` at `width` under the given wrap mode.
pub fn rendered_height(line: &str, width: usize, wrap: bool) -> (r: usize)
    requires
        width >= 1,
    ensures
        r == line_height(line@, width as nat, wrap),
        r >= 1,
{
    if wrap {
        wrapped_height(line, width)
    } else {
        1
    }
}

} // verus!
