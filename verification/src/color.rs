//! Color model translator: maps the abstract terminal color value (an unset
//! default, a fixed named palette, or an explicit RGB triple) to a concrete
//! RGB triple.

use vstd::prelude::*;

verus! {

/// An abstract terminal color: unset/default, one of the conventional named
/// palette entries, or an explicit true-color triple.
#[derive(Clone, Copy, PartialEq, Eq, Structural, Debug)]
pub enum Color {
    Reset,
    Black,
    Red,
    Green,
    Yellow,
    Blue,
    Magenta,
    Cyan,
    Gray,
    DarkGray,
    LightRed,
    LightGreen,
    LightYellow,
    LightBlue,
    LightMagenta,
    LightCyan,
    White,
    Rgb(u8, u8, u8),
}

/// The fixed mapping from a color to its RGB triple; `None` for the unset
/// default. Named palette entries use the conventional xterm values.
pub open spec fn to_rgb_spec(c: Color) -> Option<(u8, u8, u8)> {
    match c {
        Color::Reset => None,
        Color::Black => Some((0u8, 0u8, 0u8)),
        Color::Red => Some((205u8, 0u8, 0u8)),
        Color::Green => Some((0u8, 205u8, 0u8)),
        Color::Yellow => Some((205u8, 205u8, 0u8)),
        Color::Blue => Some((0u8, 0u8, 238u8)),
        Color::Magenta => Some((205u8, 0u8, 205u8)),
        Color::Cyan => Some((0u8, 205u8, 205u8)),
        Color::Gray => Some((229u8, 229u8, 229u8)),
        Color::DarkGray => Some((127u8, 127u8, 127u8)),
        Color::LightRed => Some((255u8, 0u8, 0u8)),
        Color::LightGreen => Some((0u8, 255u8, 0u8)),
        Color::LightYellow => Some((255u8, 255u8, 0u8)),
        Color::LightBlue => Some((92u8, 92u8, 255u8)),
        Color::LightMagenta => Some((255u8, 0u8, 255u8)),
        Color::LightCyan => Some((0u8, 255u8, 255u8)),
        Color::White => Some((255u8, 255u8, 255u8)),
        Color::Rgb(r, g, b) => Some((r, g, b)),
    }
}

/// Resolves a color to its RGB triple; total over every representable color,
/// with `None` only for the unset default.
pub fn to_rgb(c: Color) -> (r: Option<(u8, u8, u8)>)
    ensures
        r == to_rgb_spec(c),
{
    match c {
        Color::Reset => None,
        Color::Black => Some((0, 0, 0)),
        Color::Red => Some((205, 0, 0)),
        Color::Green => Some((0, 205, 0)),
        Color::Yellow => Some((205, 205, 0)),
        Color::Blue => Some((0, 0, 238)),
        Color::Magenta => Some((205, 0, 205)),
        Color::Cyan => Some((0, 205, 205)),
        Color::Gray => Some((229, 229, 229)),
        Color::DarkGray => Some((127, 127, 127)),
        Color::LightRed => Some((255, 0, 0)),
        Color::LightGreen => Some((0, 255, 0)),
        Color::LightYellow => Some((255, 255, 0)),
        Color::LightBlue => Some((92, 92, 255)),
        Color::LightMagenta => Some((255, 0, 255)),
        Color::LightCyan => Some((0, 255, 255)),
        Color::White => Some((255, 255, 255)),
        Color::Rgb(r, g, b) => Some((r, g, b)),
    }
}

} // verus!
