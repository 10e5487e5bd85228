use money_manager::decimal::{format_i64, parse_i64};

#[test]
fn format_gives_canonical_text() {
    assert_eq!(format_i64(0), "0");
    assert_eq!(format_i64(7), "7");
    assert_eq!(format_i64(-42), "-42");
    assert_eq!(format_i64(1234567890), "1234567890");
    assert_eq!(format_i64(i64::MAX), "9223372036854775807");
    assert_eq!(format_i64(i64::MIN), "-9223372036854775808");
}

#[test]
fn parse_reads_canonical_text() {
    for n in [0i64, 1, -1, 10, 99, -100, i64::MAX, i64::MIN] {
        assert_eq!(parse_i64(&n.to_string()), Some(n));
    }
}

#[test]
fn parse_reads_sign_and_leading_zeros() {
    assert_eq!(parse_i64("+7"), Some(7));
    assert_eq!(parse_i64("007"), Some(7));
    assert_eq!(parse_i64("-0"), Some(0));
    assert_eq!(parse_i64("+0009223372036854775807"), Some(i64::MAX));
    assert_eq!(parse_i64("-0009223372036854775808"), Some(i64::MIN));
}

#[test]
fn parse_refuses_other_text() {
    for s in ["", "-", "+", "+-5", "--5", "1a", " 1", "1 ", "9223372036854775808", "-9223372036854775809", "99999999999999999999999", "\u{0663}"] {
        assert_eq!(parse_i64(s), None, "{}", s);
    }
}

#[test]
fn parse_agrees_with_std() {
    for s in ["0", "+0", "-0", "42", "+42", "-42", "0042", "-0042", "+", "-", "", "4x", "x4", "9223372036854775807", "9223372036854775808", "-9223372036854775808", "-9223372036854775809", "00000000000000000000000001", "+-1"] {
        assert_eq!(parse_i64(s), s.parse::<i64>().ok(), "{}", s);
    }
}
