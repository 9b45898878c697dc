//! Style compositor: turns one cell's colors, modifier flags and glyph into a
//! complete serialized style declaration, used for first paint or a full node
//! rebuild.

use vstd::prelude::*;
use crate::cell::{Cell, Modifier};
use crate::color::{to_rgb, to_rgb_spec, Color};
use crate::patch::{build_inline_style, build_style_spec, lemma_pairs_view_push, pairs_view};
use crate::text::{dec_str_spec, dec_string};
use crate::width::{glyph_width, symbol_width};
use vstd::seq_lib::lemma_concat_associative;

verus! {

/// The textual `rgb(r, g, b)` form of a triple.
pub open spec fn rgb_value_spec(c: (u8, u8, u8)) -> Seq<char> {
    "rgb("@ + dec_str_spec(c.0 as nat) + ", "@ + dec_str_spec(c.1 as nat) + ", "@ + dec_str_spec(
        c.2 as nat,
    ) + ")"@
}

/// The RGB triple shown as the foreground: the reversed modifier swaps the
/// two colors before any fallback applies.
pub open spec fn resolved_fg_spec(cell: Cell) -> Option<(u8, u8, u8)> {
    if cell.modifier.reversed {
        to_rgb_spec(cell.bg)
    } else {
        to_rgb_spec(cell.fg)
    }
}

/// The RGB triple shown as the background, before fallback.
pub open spec fn resolved_bg_spec(cell: Cell) -> Option<(u8, u8, u8)> {
    if cell.modifier.reversed {
        to_rgb_spec(cell.fg)
    } else {
        to_rgb_spec(cell.bg)
    }
}

/// The value of the `color` property: the resolved foreground, or opaque
/// white when it is unset.
pub open spec fn fg_value_spec(cell: Cell) -> Seq<char> {
    match resolved_fg_spec(cell) {
        Some(c) => rgb_value_spec(c),
        None => rgb_value_spec((255u8, 255u8, 255u8)),
    }
}

/// The value of the `background-color` property: the resolved background;
/// when it is unset, opaque white for a reversed cell and transparent
/// otherwise.
pub open spec fn bg_value_spec(cell: Cell) -> Seq<char> {
    match resolved_bg_spec(cell) {
        Some(c) => rgb_value_spec(c),
        None => if cell.modifier.reversed {
            rgb_value_spec((255u8, 255u8, 255u8))
        } else {
            "transparent"@
        },
    }
}

/// The properties the modifier flags contribute, each independently and
/// cumulatively, in a fixed order.
pub open spec fn modifier_pairs_spec(m: Modifier) -> Seq<(Seq<char>, Seq<char>)> {
    (if m.bold {
        seq![("font-weight"@, "bold"@)]
    } else {
        Seq::empty()
    }) + (if m.dim {
        seq![("opacity"@, "0.5"@)]
    } else {
        Seq::empty()
    }) + (if m.italic {
        seq![("font-style"@, "italic"@)]
    } else {
        Seq::empty()
    }) + (if m.underlined {
        seq![("text-decoration"@, "underline"@)]
    } else {
        Seq::empty()
    }) + (if m.hidden {
        seq![("visibility"@, "hidden"@)]
    } else {
        Seq::empty()
    }) + (if m.crossed_out {
        seq![("text-decoration"@, "line-through"@)]
    } else {
        Seq::empty()
    })
}

/// Whether the glyph starts in the Braille Patterns block.
pub open spec fn is_braille_spec(s: Seq<char>) -> bool {
    s.len() > 0 && 0x2800 <= s[0] as u32 && s[0] as u32 <= 0x28ff
}

/// The complete ordered property list for one cell: foreground, background,
/// modifier properties, the tabular-numeric special case for braille glyphs,
/// and inline-block sizing to the glyph's display width.
pub open spec fn compose_pairs_spec(cell: Cell) -> Seq<(Seq<char>, Seq<char>)> {
    seq![("color"@, fg_value_spec(cell)), ("background-color"@, bg_value_spec(cell))]
        + modifier_pairs_spec(cell.modifier) + (if is_braille_spec(cell.symbol@) {
        seq![("font-variant-numeric"@, "tabular-nums"@)]
    } else {
        Seq::empty()
    }) + seq![
        ("display"@, "inline-block"@),
        ("width"@, dec_str_spec(glyph_width(cell.symbol@)) + "ch"@),
    ]
}

/// Checks whether the cell's glyph is a braille character.
pub fn contains_braille(cell: &Cell) -> (r: bool)
    ensures
        r == is_braille_spec(cell.symbol@),
{
    let s = cell.symbol.as_str();
    if s.unicode_len() == 0 {
        false
    } else {
        let u = s.get_char(0) as u32;
        0x2800 <= u && u <= 0x28ff
    }
}

fn rgb_value(c: (u8, u8, u8)) -> (r: String)
    ensures
        r@ == rgb_value_spec(c),
{
    let mut s = String::from_str("rgb(");
    let d0 = dec_string(c.0 as usize);
    s.append(d0.as_str());
    s.append(", ");
    let d1 = dec_string(c.1 as usize);
    s.append(d1.as_str());
    s.append(", ");
    let d2 = dec_string(c.2 as usize);
    s.append(d2.as_str());
    s.append(")");
    proof {
        assert(s@ =~= rgb_value_spec(c));
    }
    s
}

fn push_pair(pairs: &mut Vec<(String, String)>, key: &str, val: String)
    ensures
        pairs_view(final(pairs)@) == pairs_view(old(pairs)@) + seq![(key@, val@)],
{
    let p = (String::from_str(key), val);
    proof {
        lemma_pairs_view_push(pairs@, p);
    }
    pairs.push(p);
}

fn push_modifier_styles(pairs: &mut Vec<(String, String)>, m: Modifier)
    ensures
        pairs_view(final(pairs)@) == pairs_view(old(pairs)@) + modifier_pairs_spec(m),
{
    let ghost base = pairs_view(pairs@);
    let ghost b1: Seq<(Seq<char>, Seq<char>)> = if m.bold {
        seq![("font-weight"@, "bold"@)]
    } else {
        Seq::empty()
    };
    let ghost b2: Seq<(Seq<char>, Seq<char>)> = if m.dim {
        seq![("opacity"@, "0.5"@)]
    } else {
        Seq::empty()
    };
    let ghost b3: Seq<(Seq<char>, Seq<char>)> = if m.italic {
        seq![("font-style"@, "italic"@)]
    } else {
        Seq::empty()
    };
    let ghost b4: Seq<(Seq<char>, Seq<char>)> = if m.underlined {
        seq![("text-decoration"@, "underline"@)]
    } else {
        Seq::empty()
    };
    let ghost b5: Seq<(Seq<char>, Seq<char>)> = if m.hidden {
        seq![("visibility"@, "hidden"@)]
    } else {
        Seq::empty()
    };
    let ghost b6: Seq<(Seq<char>, Seq<char>)> = if m.crossed_out {
        seq![("text-decoration"@, "line-through"@)]
    } else {
        Seq::empty()
    };
    if m.bold {
        push_pair(pairs, "font-weight", String::from_str("bold"));
    }
    proof {
        if !m.bold {
            Seq::add_empty_right(base, b1);
        }
        assert(pairs_view(pairs@) == base + b1);
    }
    if m.dim {
        push_pair(pairs, "opacity", String::from_str("0.5"));
    }
    proof {
        if !m.dim {
            Seq::add_empty_right(base + b1, b2);
        }
        lemma_concat_associative(base, b1, b2);
        assert(pairs_view(pairs@) == base + (b1 + b2));
    }
    if m.italic {
        push_pair(pairs, "font-style", String::from_str("italic"));
    }
    proof {
        if !m.italic {
            Seq::add_empty_right(base + (b1 + b2), b3);
        }
        lemma_concat_associative(base, b1 + b2, b3);
        assert(pairs_view(pairs@) == base + (b1 + b2 + b3));
    }
    if m.underlined {
        push_pair(pairs, "text-decoration", String::from_str("underline"));
    }
    proof {
        if !m.underlined {
            Seq::add_empty_right(base + (b1 + b2 + b3), b4);
        }
        lemma_concat_associative(base, b1 + b2 + b3, b4);
        assert(pairs_view(pairs@) == base + (b1 + b2 + b3 + b4));
    }
    if m.hidden {
        push_pair(pairs, "visibility", String::from_str("hidden"));
    }
    proof {
        if !m.hidden {
            Seq::add_empty_right(base + (b1 + b2 + b3 + b4), b5);
        }
        lemma_concat_associative(base, b1 + b2 + b3 + b4, b5);
        assert(pairs_view(pairs@) == base + (b1 + b2 + b3 + b4 + b5));
    }
    if m.crossed_out {
        push_pair(pairs, "text-decoration", String::from_str("line-through"));
    }
    proof {
        if !m.crossed_out {
            Seq::add_empty_right(base + (b1 + b2 + b3 + b4 + b5), b6);
        }
        lemma_concat_associative(base, b1 + b2 + b3 + b4 + b5, b6);
        assert(pairs_view(pairs@) == base + (b1 + b2 + b3 + b4 + b5 + b6));
        assert(b1 + b2 + b3 + b4 + b5 + b6 == modifier_pairs_spec(m));
    }
}

/// Composes the complete style declaration for one cell.
#[verifier::rlimit(100)]
pub fn compose_style(cell: &Cell) -> (r: String)
    ensures
        r@ == build_style_spec(compose_pairs_spec(*cell)),
{
    let mut pairs: Vec<(String, String)> = Vec::new();
    let fg = if cell.modifier.reversed {
        to_rgb(cell.bg)
    } else {
        to_rgb(cell.fg)
    };
    let bg = if cell.modifier.reversed {
        to_rgb(cell.fg)
    } else {
        to_rgb(cell.bg)
    };
    let fgv = match fg {
        Some(c) => rgb_value(c),
        None => rgb_value((255, 255, 255)),
    };
    let bgv = match bg {
        Some(c) => rgb_value(c),
        None => {
            if cell.modifier.reversed {
                rgb_value((255, 255, 255))
            } else {
                String::from_str("transparent")
            }
        },
    };
    let ghost base = seq![
        ("color"@, fg_value_spec(*cell)),
        ("background-color"@, bg_value_spec(*cell)),
    ];
    push_pair(&mut pairs, "color", fgv);
    push_pair(&mut pairs, "background-color", bgv);
    proof {
        assert(pairs_view(pairs@) =~= base);
    }
    let m = cell.modifier;
    push_modifier_styles(&mut pairs, m);
    proof {
        assert(pairs_view(pairs@) == base + modifier_pairs_spec(m));
    }
    let ghost with_braille = base + modifier_pairs_spec(m) + (if is_braille_spec(cell.symbol@) {
        seq![("font-variant-numeric"@, "tabular-nums"@)]
    } else {
        Seq::empty()
    });
    let braille = contains_braille(cell);
    if braille {
        push_pair(&mut pairs, "font-variant-numeric", String::from_str("tabular-nums"));
    }
    proof {
        if !braille {
            Seq::add_empty_right(
                base + modifier_pairs_spec(m),
                Seq::<(Seq<char>, Seq<char>)>::empty(),
            );
        }
        assert(pairs_view(pairs@) == with_braille);
    }
    push_pair(&mut pairs, "display", String::from_str("inline-block"));
    let w = symbol_width(cell.symbol.as_str());
    let mut ws = dec_string(w);
    ws.append("ch");
    push_pair(&mut pairs, "width", ws);
    proof {
        let d = ("display"@, "inline-block"@);
        let wp = ("width"@, dec_str_spec(glyph_width(cell.symbol@)) + "ch"@);
        assert(pairs_view(pairs@) == (with_braille + seq![d]) + seq![wp]);
        lemma_concat_associative(with_braille, seq![d], seq![wp]);
        assert(seq![d] + seq![wp] =~= seq![d, wp]);
        assert(pairs_view(pairs@) == compose_pairs_spec(*cell));
    }
    build_inline_style(&pairs)
}

/// The value shown on a canvas surface for a color, with a fallback color for
/// the unset case.
pub open spec fn canvas_color_spec(color: Color, fallback: Color) -> Seq<char> {
    match to_rgb_spec(color) {
        Some(c) => rgb_value_spec(c),
        None => match to_rgb_spec(fallback) {
            Some(c) => rgb_value_spec(c),
            None => Seq::empty(),
        },
    }
}

/// Converts a color to its `rgb(r, g, b)` text, falling back to
/// `fallback_color` when `color` is unset. The fallback must itself resolve
/// when it is needed.
pub fn get_canvas_color(color: Color, fallback_color: Color) -> (r: String)
    requires
        to_rgb_spec(color) is Some || to_rgb_spec(fallback_color) is Some,
    ensures
        r@ == canvas_color_spec(color, fallback_color),
{
    match to_rgb(color) {
        Some(c) => rgb_value(c),
        None => {
            let c = to_rgb(fallback_color).unwrap();
            rgb_value(c)
        },
    }
}

/// The concatenation of the glyphs of a run of cells, used as the link
/// target of an anchor node spanning the run.
pub open spec fn link_target_spec(cells: Seq<Cell>) -> Seq<char>
    decreases cells.len(),
{
    if cells.len() == 0 {
        Seq::empty()
    } else {
        link_target_spec(cells.drop_last()) + cells.last().symbol@
    }
}

/// Concatenates the glyphs of a run of cells.
pub fn link_target(cells: &Vec<Cell>) -> (r: String)
    ensures
        r@ == link_target_spec(cells@),
{
    let mut s = String::new();
    let n = cells.len();
    let mut i: usize = 0;
    proof {
        assert(cells@.subrange(0, 0) =~= Seq::<Cell>::empty());
    }
    while i < n
        invariant
            i <= n,
            n == cells@.len(),
            s@ == link_target_spec(cells@.subrange(0, i as int)),
        decreases n - i,
    {
        s.append(cells[i].symbol.as_str());
        proof {
            assert(cells@.subrange(0, i + 1).drop_last() =~= cells@.subrange(0, i as int));
            assert(cells@.subrange(0, i + 1).last() == cells@[i as int]);
        }
        i = i + 1;
    }
    proof {
        assert(cells@.subrange(0, n as int) =~= cells@);
    }
    s
}

} // verus!
