use quest_notifier::color::parse_color;
use quest_notifier::keys::{base_id_of, compose_id, str_eq};

#[test]
fn base_id_of_composite() {
    assert_eq!(base_id_of("us:Q1"), "Q1");
}

#[test]
fn base_id_of_plain() {
    assert_eq!(base_id_of("Q1"), "Q1");
}

#[test]
fn base_id_of_multiple_separators() {
    assert_eq!(base_id_of("a:b:c"), "c");
}

#[test]
fn base_id_of_trailing_separator() {
    assert_eq!(base_id_of("us:"), "");
}

#[test]
fn base_id_of_empty() {
    assert_eq!(base_id_of(""), "");
}

#[test]
fn compose_then_recover_base() {
    let composite = compose_id("eu", "Q1");
    assert_eq!(composite, "eu:Q1");
    assert_eq!(base_id_of(&composite), "Q1");
}

#[test]
fn compose_keeps_inner_separator() {
    let composite = compose_id("eu", "x:y");
    assert_eq!(composite, "eu:x:y");
    assert_eq!(base_id_of(&composite), "y");
}

#[test]
fn str_eq_decides_equality() {
    assert!(str_eq("abc", "abc"));
    assert!(!str_eq("abc", "abd"));
    assert!(!str_eq("abc", "ab"));
    assert!(str_eq("", ""));
}

#[test]
fn parse_color_exact_value() {
    assert_eq!(parse_color("#5865F2", 0), 0x5865F2);
}

#[test]
fn parse_color_without_hash() {
    assert_eq!(parse_color("FF", 7), 255);
}

#[test]
fn parse_color_lowercase_digits() {
    assert_eq!(parse_color("#ff00ff", 0), 0xFF00FF);
}

#[test]
fn parse_color_invalid_falls_back() {
    assert_eq!(parse_color("nope", 0x123456), 0x123456);
}

#[test]
fn parse_color_empty_falls_back() {
    assert_eq!(parse_color("", 42), 42);
}

#[test]
fn parse_color_hash_only_falls_back() {
    assert_eq!(parse_color("#", 42), 42);
}

#[test]
fn parse_color_max_value() {
    assert_eq!(parse_color("FFFFFFFF", 0), u32::MAX);
}

#[test]
fn parse_color_overflow_falls_back() {
    assert_eq!(parse_color("100000000", 9), 9);
    assert_eq!(parse_color("FFFFFFFFFF", 9), 9);
}

#[test]
fn parse_color_plus_sign() {
    assert_eq!(parse_color("+10", 0), 16);
}

#[test]
fn parse_color_minus_only_zero() {
    assert_eq!(parse_color("-0", 5), 0);
    assert_eq!(parse_color("-1", 5), 5);
}

#[test]
fn parse_color_multiple_hashes() {
    assert_eq!(parse_color("##FF", 0), 255);
}
