use cardano_slurp::parse::{parse_hex, parse_point, parse_u64};
use cardano_slurp::point::Point;

#[test]
fn origin_parses_to_the_origin_point() {
    assert_eq!(parse_point("origin"), Some(Point::Origin));
}

#[test]
fn slot_and_hash_parse_to_a_specific_point() {
    let p = parse_point("1234/00ff10");
    assert_eq!(p, Some(Point::Specific(1234, vec![0x00, 0xff, 0x10])));
}

#[test]
fn text_after_a_second_slash_is_ignored() {
    let p = parse_point("5/aabb/extra");
    assert_eq!(p, Some(Point::Specific(5, vec![0xaa, 0xbb])));
}

#[test]
fn malformed_points_are_rejected() {
    assert_eq!(parse_point(""), None);
    assert_eq!(parse_point("12"), None);
    assert_eq!(parse_point("/aa"), None);
    assert_eq!(parse_point("a/bb"), None);
    assert_eq!(parse_point("12/gg"), None);
    assert_eq!(parse_point("12/abc"), None);
    assert_eq!(parse_point("Origin"), None);
}

#[test]
fn slots_past_the_integer_range_are_rejected() {
    assert_eq!(parse_point("18446744073709551615/aa"), Some(Point::Specific(u64::MAX, vec![0xaa])));
    assert_eq!(parse_point("18446744073709551616/aa"), None);
}

#[test]
fn decimal_parsing_pins_the_value() {
    assert_eq!(parse_u64(b"0"), Some(0));
    assert_eq!(parse_u64(b"007"), Some(7));
    assert_eq!(parse_u64(b"18446744073709551615"), Some(u64::MAX));
    assert_eq!(parse_u64(b""), None);
    assert_eq!(parse_u64(b"12a"), None);
}

#[test]
fn hex_parsing_accepts_both_cases() {
    assert_eq!(parse_hex(b"AaBb09"), Some(vec![0xaa, 0xbb, 0x09]));
    assert_eq!(parse_hex(b""), Some(vec![]));
    assert_eq!(parse_hex(b"abc"), None);
    assert_eq!(parse_hex(b"zz"), None);
}
