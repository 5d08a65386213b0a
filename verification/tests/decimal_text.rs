use sqlite_tools::decimal::{i64_text, parse_i32, parse_u32, u64_text};
use sqlite_tools::text::{join_strings, skip_lines};

#[test]
fn parse_u32_accepts_digits_and_plus() {
    assert_eq!(parse_u32("42"), Some(42));
    assert_eq!(parse_u32("+7"), Some(7));
    assert_eq!(parse_u32("007"), Some(7));
    assert_eq!(parse_u32("4294967295"), Some(u32::MAX));
}

#[test]
fn parse_u32_rejects_what_str_parse_rejects() {
    assert_eq!(parse_u32(""), None);
    assert_eq!(parse_u32("+"), None);
    assert_eq!(parse_u32("-1"), None);
    assert_eq!(parse_u32("-0"), None);
    assert_eq!(parse_u32("4294967296"), None);
    assert_eq!(parse_u32("12a"), None);
    assert_eq!(parse_u32(" 1"), None);
    assert_eq!(parse_u32("１"), None);
}

#[test]
fn parse_u32_agrees_with_std() {
    for s in ["0", "+0", "99999999999", "++1", "1+", "", "+", "-", "65536", "00000000000000000001"] {
        assert_eq!(parse_u32(s), s.parse::<u32>().ok(), "{s}");
    }
}

#[test]
fn parse_i32_bounds_and_signs() {
    assert_eq!(parse_i32("-2147483648"), Some(i32::MIN));
    assert_eq!(parse_i32("2147483647"), Some(i32::MAX));
    assert_eq!(parse_i32("2147483648"), None);
    assert_eq!(parse_i32("-2147483649"), None);
    assert_eq!(parse_i32("-0"), Some(0));
    assert_eq!(parse_i32("+12"), Some(12));
    assert_eq!(parse_i32("-"), None);
    assert_eq!(parse_i32("-+1"), None);
    for s in ["2024", "-5", "+-5", "", "x", "2147483647", "-2147483648"] {
        assert_eq!(parse_i32(s), s.parse::<i32>().ok(), "{s}");
    }
}

#[test]
fn integer_texts() {
    assert_eq!(u64_text(0), "0");
    assert_eq!(u64_text(1234), "1234");
    assert_eq!(u64_text(u64::MAX), u64::MAX.to_string());
    assert_eq!(i64_text(-5), "-5");
    assert_eq!(i64_text(i64::MIN), "-9223372036854775808");
    assert_eq!(i64_text(i64::MAX), "9223372036854775807");
}

#[test]
fn decimal_round_trip_examples() {
    for n in [0u32, 9, 10, 4294967295] {
        assert_eq!(parse_u32(&u64_text(n as u64)), Some(n));
    }
    for v in [0i32, -1, i32::MIN, i32::MAX] {
        assert_eq!(parse_i32(&i64_text(v as i64)), Some(v));
    }
}

#[test]
fn skip_lines_drops_preamble() {
    assert_eq!(skip_lines("a\nb\nc\nh1,h2\n1,2\n", 3), "h1,h2\n1,2\n");
    assert_eq!(skip_lines("a\r\nb\n", 1), "b\n");
    assert_eq!(skip_lines("only", 3), "");
    assert_eq!(skip_lines("x\n\ny", 2), "y");
    assert_eq!(skip_lines("keep", 0), "keep");
}

#[test]
fn join_strings_puts_separator_between() {
    let parts = vec!["a".to_string(), "b".to_string(), "c".to_string()];
    assert_eq!(join_strings(&parts, ", "), "a, b, c");
    assert_eq!(join_strings(&Vec::new(), ", "), "");
    assert_eq!(join_strings(&vec!["x".to_string()], ", "), "x");
}
