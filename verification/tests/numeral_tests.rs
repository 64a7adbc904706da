use erdtree::numeral::{parse_usize, usize_to_string};

#[test]
fn renders_zero_and_larger_values() {
    assert_eq!(usize_to_string(0), "0".to_string());
    assert_eq!(usize_to_string(7), "7".to_string());
    assert_eq!(usize_to_string(12345), "12345".to_string());
}

#[test]
fn parses_decimal_values() {
    assert_eq!(parse_usize("0"), Some(0));
    assert_eq!(parse_usize("42"), Some(42));
    assert_eq!(parse_usize("007"), Some(7));
}

#[test]
fn rejects_empty_and_non_digit_input() {
    assert_eq!(parse_usize(""), None);
    assert_eq!(parse_usize("x1"), None);
    assert_eq!(parse_usize("1x"), None);
    assert_eq!(parse_usize("-3"), None);
    assert_eq!(parse_usize(" 3"), None);
}

#[test]
fn rejects_values_out_of_range() {
    assert_eq!(parse_usize("99999999999999999999999999"), None);
}

#[test]
fn rendering_then_parsing_is_identity() {
    for n in [0usize, 1, 9, 10, 99, 100, 65535, 123456789] {
        assert_eq!(parse_usize(&usize_to_string(n)), Some(n));
    }
}
