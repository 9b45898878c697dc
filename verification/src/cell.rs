//! The cell model: one grid position's renderable state — a glyph, a
//! foreground and background color, and the set of modifier flags.

use vstd::prelude::*;
use crate::color::Color;

verus! {

/// The boolean text-rendering attributes of a cell, applied independently of
/// color.
#[derive(Clone, Copy, PartialEq, Eq, Structural, Debug)]
pub struct Modifier {
    pub bold: bool,
    pub dim: bool,
    pub italic: bool,
    pub underlined: bool,
    pub hidden: bool,
    pub crossed_out: bool,
    pub reversed: bool,
}

impl Modifier {
    /// The empty modifier set.
    pub open spec fn none_spec() -> Modifier {
        Modifier {
            bold: false,
            dim: false,
            italic: false,
            underlined: false,
            hidden: false,
            crossed_out: false,
            reversed: false,
        }
    }

    /// Returns the empty modifier set.
    pub fn none() -> (r: Modifier)
        ensures
            r == Modifier::none_spec(),
    {
        Modifier {
            bold: false,
            dim: false,
            italic: false,
            underlined: false,
            hidden: false,
            crossed_out: false,
            reversed: false,
        }
    }
}

impl Default for Modifier {
    fn default() -> (r: Modifier)
        ensures
            r == Modifier::none_spec(),
    {
        Modifier::none()
    }
}

/// One grid position's rendering state.
#[derive(Clone, Debug)]
pub struct Cell {
    /// The displayed glyph: one or more characters forming a single symbol.
    pub symbol: String,
    pub fg: Color,
    pub bg: Color,
    pub modifier: Modifier,
}

/// Whether `c` is the blank default cell that a freshly allocated buffer
/// holds: a single space, unset colors, no modifiers.
pub open spec fn is_default_cell(c: Cell) -> bool {
    &&& c.symbol@ == " "@
    &&& c.fg == Color::Reset
    &&& c.bg == Color::Reset
    &&& c.modifier == Modifier::none_spec()
}

impl Default for Cell {
    fn default() -> (r: Cell)
        ensures
            is_default_cell(r),
    {
        Cell {
            symbol: String::from_str(" "),
            fg: Color::Reset,
            bg: Color::Reset,
            modifier: Modifier::none(),
        }
    }
}

} // verus!
