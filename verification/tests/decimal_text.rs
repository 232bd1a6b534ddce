use backend::decimal::{i64_to_decimal, parse_i64, prefixed_decimal};

#[test]
fn renders_like_display() {
    for n in [0i64, 7, 9, 10, 42, 1000, -1, -10, -987654321, i64::MAX, i64::MIN] {
        assert_eq!(i64_to_decimal(n), format!("{}", n));
    }
    assert_eq!(i64_to_decimal(98000123), "98000123");
    assert_eq!(i64_to_decimal(-5), "-5");
}

#[test]
fn prefixes_the_number() {
    assert_eq!(prefixed_decimal("Character ", 2112000001), "Character 2112000001");
    assert_eq!(prefixed_decimal("", -3), "-3");
}

#[test]
fn parses_like_str_parse() {
    let cases = [
        "0", "123", "+5", "-0", "-17", "007", "9223372036854775807", "-9223372036854775808",
        "9223372036854775808", "-9223372036854775809", "", "+", "-", "12a", " 1", "1 ", "--1",
        "+-1", "1_000", "\u{661}\u{662}", "99999999999999999999999",
    ];
    for s in cases {
        assert_eq!(parse_i64(s), s.parse::<i64>().ok(), "input {:?}", s);
    }
}

#[test]
fn parses_exact_values() {
    assert_eq!(parse_i64("98765"), Some(98765));
    assert_eq!(parse_i64("-42"), Some(-42));
    assert_eq!(parse_i64("abc"), None);
    assert_eq!(parse_i64(""), None);
}

#[test]
fn rendering_reads_back() {
    for n in [0i64, 1, -1, 123456789, i64::MIN, i64::MAX] {
        assert_eq!(parse_i64(&i64_to_decimal(n)), Some(n));
    }
}
