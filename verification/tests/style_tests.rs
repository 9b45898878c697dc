use ratzilla::cell::{Cell, Modifier};
use ratzilla::color::{to_rgb, Color};
use ratzilla::patch::apply_field;
use ratzilla::style::{compose_style, contains_braille, get_canvas_color, link_target};

fn plain_cell(symbol: &str, fg: Color, bg: Color, modifier: Modifier) -> Cell {
    Cell {
        symbol: symbol.to_string(),
        fg,
        bg,
        modifier,
    }
}

#[test]
fn test_to_rgb_palette_and_passthrough() {
    assert_eq!(to_rgb(Color::Reset), None);
    assert_eq!(to_rgb(Color::Black), Some((0, 0, 0)));
    assert_eq!(to_rgb(Color::Red), Some((205, 0, 0)));
    assert_eq!(to_rgb(Color::White), Some((255, 255, 255)));
    assert_eq!(to_rgb(Color::LightBlue), Some((92, 92, 255)));
    assert_eq!(to_rgb(Color::Rgb(1, 22, 133)), Some((1, 22, 133)));
}

#[test]
fn test_unset_colors_fall_back_to_white_and_transparent() {
    let cell = plain_cell(" ", Color::Reset, Color::Reset, Modifier::none());
    let css = compose_style(&cell);
    assert_eq!(
        css,
        "color: rgb(255, 255, 255);background-color: transparent;display: inline-block;width: 1ch;"
    );
}

#[test]
fn test_set_colors_are_translated() {
    let cell = plain_cell("A", Color::Red, Color::Blue, Modifier::none());
    let css = compose_style(&cell);
    assert_eq!(
        css,
        "color: rgb(205, 0, 0);background-color: rgb(0, 0, 238);display: inline-block;width: 1ch;"
    );
}

#[test]
fn test_reversed_equals_swapped_composition() {
    let reversed = plain_cell(
        "A",
        Color::Red,
        Color::Blue,
        Modifier {
            reversed: true,
            ..Modifier::none()
        },
    );
    let swapped = plain_cell("A", Color::Blue, Color::Red, Modifier::none());
    assert_eq!(compose_style(&reversed), compose_style(&swapped));
}

#[test]
fn test_reversed_unset_background_falls_back_to_white() {
    let cell = plain_cell(
        "A",
        Color::Red,
        Color::Reset,
        Modifier {
            reversed: true,
            ..Modifier::none()
        },
    );
    let css = compose_style(&cell);
    assert_eq!(
        css,
        "color: rgb(255, 255, 255);background-color: rgb(205, 0, 0);display: inline-block;width: 1ch;"
    );
}

#[test]
fn test_modifiers_compose_independently_and_cumulatively() {
    let cell = plain_cell(
        "A",
        Color::Reset,
        Color::Reset,
        Modifier {
            bold: true,
            dim: true,
            italic: true,
            underlined: true,
            hidden: true,
            crossed_out: true,
            reversed: false,
        },
    );
    let css = compose_style(&cell);
    assert_eq!(
        css,
        "color: rgb(255, 255, 255);background-color: transparent;\
         font-weight: bold;opacity: 0.5;font-style: italic;\
         text-decoration: underline;visibility: hidden;text-decoration: line-through;\
         display: inline-block;width: 1ch;"
    );
}

#[test]
fn test_wide_glyph_reserves_two_units() {
    let cell = plain_cell("\u{4F60}", Color::Reset, Color::Reset, Modifier::none());
    let css = compose_style(&cell);
    assert!(css.ends_with("display: inline-block;width: 2ch;"));
}

#[test]
fn test_zero_width_mark_reserves_no_units() {
    let cell = plain_cell("\u{0301}", Color::Reset, Color::Reset, Modifier::none());
    let css = compose_style(&cell);
    assert!(css.ends_with("display: inline-block;width: 0ch;"));
}

#[test]
fn test_multi_glyph_width_uses_decimal_formatting() {
    let cell = plain_cell(
        "\u{4F60}\u{597D}\u{4E16}\u{754C}\u{FF01}",
        Color::Reset,
        Color::Reset,
        Modifier::none(),
    );
    let css = compose_style(&cell);
    assert!(css.ends_with("display: inline-block;width: 10ch;"));
}

#[test]
fn test_braille_glyph_gets_tabular_numeric_spacing() {
    let cell = plain_cell("\u{2813}", Color::Reset, Color::Reset, Modifier::none());
    assert!(contains_braille(&cell));
    let css = compose_style(&cell);
    assert!(css.contains("font-variant-numeric: tabular-nums;"));
    let plain = plain_cell("A", Color::Reset, Color::Reset, Modifier::none());
    assert!(!contains_braille(&plain));
    assert!(!compose_style(&plain).contains("font-variant-numeric"));
}

#[test]
fn test_compose_then_patch_changes_only_the_color() {
    let cell = plain_cell(
        "A",
        Color::Red,
        Color::Reset,
        Modifier {
            bold: true,
            ..Modifier::none()
        },
    );
    let original = compose_style(&cell);
    assert_eq!(
        original,
        "color: rgb(205, 0, 0);background-color: transparent;font-weight: bold;display: inline-block;width: 1ch;"
    );
    let patched = apply_field(&original, "color", Some("rgb(0, 205, 0)"));
    assert_eq!(
        patched,
        "color: rgb(0, 205, 0);background-color: transparent;font-weight: bold;display: inline-block;width: 1ch;"
    );
    let expected = original.replace("rgb(205, 0, 0)", "rgb(0, 205, 0)");
    assert_eq!(patched, expected);
}

#[test]
fn test_canvas_color_uses_fallback_only_when_unset() {
    assert_eq!(get_canvas_color(Color::Red, Color::White), "rgb(205, 0, 0)");
    assert_eq!(
        get_canvas_color(Color::Reset, Color::White),
        "rgb(255, 255, 255)"
    );
}

#[test]
fn test_link_target_concatenates_glyphs() {
    let cells = vec![
        plain_cell("h", Color::Reset, Color::Reset, Modifier::none()),
        plain_cell("i", Color::Reset, Color::Reset, Modifier::none()),
        plain_cell("!", Color::Reset, Color::Reset, Modifier::none()),
    ];
    assert_eq!(link_target(&cells), "hi!");
    assert_eq!(link_target(&Vec::new()), "");
}
