use ratzilla::patch::{apply_field, build_inline_style, parse_inline_style, CssAttribute};

#[test]
fn test_add_new_field() {
    let got = apply_field("color: red;", "background-color", Some("blue"));
    assert!(got.contains("color: red;"));
    assert!(got.contains("background-color: blue;"));
    assert_eq!(got, "color: red;background-color: blue;");
}

#[test]
fn test_update_existing_field() {
    let got = apply_field("color: red;", "color", Some("green"));
    assert_eq!(got, "color: green;");
}

#[test]
fn test_remove_field() {
    let got = apply_field("color: red; background-color: blue;", "color", None);
    assert_eq!(got, "background-color: blue;");
}

#[test]
fn test_remove_last_field_removes_attribute() {
    let got = apply_field("color: red;", "color", None);
    assert!(got.is_empty());
}

#[test]
fn test_css_attribute_carries_one_change() {
    let attr = CssAttribute {
        field: "opacity",
        value: Some("0.5"),
    };
    let got = apply_field("color: red;", attr.field, attr.value);
    assert_eq!(got, "color: red;opacity: 0.5;");
}

#[test]
fn test_set_then_remove_round_trips_to_removal() {
    let original = "color: red;font-weight: bold;width: 2ch;";
    let set = apply_field(original, "color", Some("blue"));
    let removed_after_set = apply_field(&set, "color", None);
    let removed_directly = apply_field(original, "color", None);
    assert_eq!(removed_after_set, removed_directly);
    assert_eq!(removed_after_set, "font-weight: bold;width: 2ch;");
}

#[test]
fn test_set_is_idempotent() {
    let once = apply_field("color: red;width: 1ch;", "width", Some("2ch"));
    let twice = apply_field(&once, "width", Some("2ch"));
    assert_eq!(once, twice);
    assert_eq!(once, "color: red;width: 2ch;");
}

#[test]
fn test_removing_every_field_leaves_empty_text() {
    let mut css = String::from("color: red;background-color: blue;font-weight: bold;");
    for name in ["color", "background-color", "font-weight"] {
        css = apply_field(&css, name, None);
    }
    assert_eq!(css, "");
}

#[test]
fn test_property_match_is_case_insensitive() {
    let got = apply_field("COLOR: red;", "color", Some("blue"));
    assert_eq!(got, "COLOR: blue;");
    let pairs = parse_inline_style(&got);
    assert_eq!(pairs.len(), 1);
    assert_eq!(pairs[0].1, "blue");
}

#[test]
fn test_remove_matches_case_insensitively_everywhere() {
    let got = apply_field("COLOR: red; a: b; Color: green;", "color", None);
    assert_eq!(got, "a: b;");
}

#[test]
fn test_append_goes_to_the_end_updates_keep_order() {
    let set_existing = apply_field("a: 1;b: 2;c: 3;", "b", Some("9"));
    assert_eq!(set_existing, "a: 1;b: 9;c: 3;");
    let appended = apply_field("a: 1;b: 2;", "z", Some("0"));
    assert_eq!(appended, "a: 1;b: 2;z: 0;");
}

#[test]
fn test_parse_drops_blank_and_malformed_statements() {
    let pairs = parse_inline_style("; ;  no-colon ; a : ; : b; x: y ;;");
    assert_eq!(pairs, vec![("x".to_string(), "y".to_string())]);
}

#[test]
fn test_parse_splits_on_first_colon_only() {
    let pairs = parse_inline_style("background: url(http://example);");
    assert_eq!(
        pairs,
        vec![("background".to_string(), "url(http://example)".to_string())]
    );
}

#[test]
fn test_parse_trims_names_and_values() {
    let pairs = parse_inline_style("  color :  red  ; width:2ch;");
    assert_eq!(
        pairs,
        vec![
            ("color".to_string(), "red".to_string()),
            ("width".to_string(), "2ch".to_string()),
        ]
    );
}

#[test]
fn test_build_serializes_in_order() {
    let pairs = vec![
        ("color".to_string(), "red".to_string()),
        ("width".to_string(), "2ch".to_string()),
    ];
    assert_eq!(build_inline_style(&pairs), "color: red;width: 2ch;");
    assert_eq!(build_inline_style(&Vec::new()), "");
}

#[test]
fn test_update_with_duplicate_keys_replaces_first_only() {
    let css = "text-decoration: underline;text-decoration: line-through;";
    let got = apply_field(css, "text-decoration", Some("none"));
    assert_eq!(got, "text-decoration: none;text-decoration: line-through;");
    let removed = apply_field(css, "text-decoration", None);
    assert_eq!(removed, "");
}

#[test]
fn test_update_trims_field_and_value() {
    let got = apply_field("", "  color ", Some("  red "));
    assert_eq!(got, "color: red;");
}
