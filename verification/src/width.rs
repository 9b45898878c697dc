//! Glyph display width: how many fixed-width character columns a glyph
//! occupies, Unicode-aware (wide CJK glyphs take two columns, zero-width
//! combining marks take none).

use vstd::prelude::*;

verus! {

/// The display width, in terminal columns, of the character sequence `s`, as
/// the Unicode east-asian-width rules give it. The value is a function of the
/// characters alone.
pub uninterp spec fn glyph_width(s: Seq<char>) -> nat;

/// Relies on `unicode_width::UnicodeWidthStr::width`: the display width of a
/// string in columns, determined by its characters alone.
#[verifier::external_body]
pub(crate) fn symbol_width(s: &str) -> (r: usize)
    ensures
        r as nat == glyph_width(s@),
{
    unicode_width::UnicodeWidthStr::width(s)
}

} // verus!
