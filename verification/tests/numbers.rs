use fusiontunx::num::{decimal_i32, decimal_u64_chars, int_error_text, parse_i32_chars, parse_i32_str, parse_u64_chars, IntErrorKind};

fn chars(s: &str) -> Vec<char> {
    s.chars().collect()
}

#[test]
fn parse_i32_plain_and_signed() {
    assert_eq!(parse_i32_str("1234"), Ok(1234));
    assert_eq!(parse_i32_str("+42"), Ok(42));
    assert_eq!(parse_i32_str("-17"), Ok(-17));
    assert_eq!(parse_i32_str("007"), Ok(7));
}

#[test]
fn parse_i32_limits() {
    assert_eq!(parse_i32_str("2147483647"), Ok(i32::MAX));
    assert_eq!(parse_i32_str("-2147483648"), Ok(i32::MIN));
    assert_eq!(parse_i32_str("2147483648"), Err(IntErrorKind::PosOverflow));
    assert_eq!(parse_i32_str("-2147483649"), Err(IntErrorKind::NegOverflow));
}

#[test]
fn parse_i32_errors() {
    assert_eq!(parse_i32_str(""), Err(IntErrorKind::Empty));
    assert_eq!(parse_i32_str("-"), Err(IntErrorKind::InvalidDigit));
    assert_eq!(parse_i32_str("+"), Err(IntErrorKind::InvalidDigit));
    assert_eq!(parse_i32_str("12a"), Err(IntErrorKind::InvalidDigit));
    assert_eq!(parse_i32_str(" 1"), Err(IntErrorKind::InvalidDigit));
    assert_eq!(parse_i32_chars(&chars("99")), Ok(99));
}

#[test]
fn parse_i32_agrees_with_std() {
    for s in ["0", "-0", "+0", "65535", "-65536", "999999999999", "1_000", "٣"] {
        let ours = parse_i32_str(s);
        let std = s.parse::<i32>();
        assert_eq!(ours.is_ok(), std.is_ok(), "{}", s);
        if let Ok(v) = std {
            assert_eq!(ours, Ok(v));
        }
    }
}

#[test]
fn parse_u64_values() {
    assert_eq!(parse_u64_chars(&chars("18446744073709551615")), Ok(u64::MAX));
    assert_eq!(parse_u64_chars(&chars("18446744073709551616")), Err(IntErrorKind::PosOverflow));
    assert_eq!(parse_u64_chars(&chars("-1")), Err(IntErrorKind::InvalidDigit));
    assert_eq!(parse_u64_chars(&chars("+12")), Ok(12));
    assert_eq!(parse_u64_chars(&chars("")), Err(IntErrorKind::Empty));
}

#[test]
fn decimal_rendering() {
    assert_eq!(decimal_i32(0), "0");
    assert_eq!(decimal_i32(-45), "-45");
    assert_eq!(decimal_i32(i32::MIN), "-2147483648");
    assert_eq!(decimal_i32(i32::MAX), "2147483647");
    assert_eq!(decimal_u64_chars(18446744073709551615).iter().collect::<String>(), "18446744073709551615");
}

#[test]
fn decimal_parses_back() {
    for n in [0, 1, -1, 10, -10, 123456, i32::MIN, i32::MAX] {
        assert_eq!(parse_i32_str(&decimal_i32(n)), Ok(n));
    }
}

#[test]
fn error_messages_match_std() {
    assert_eq!(int_error_text(IntErrorKind::Empty), "".parse::<i32>().unwrap_err().to_string());
    assert_eq!(int_error_text(IntErrorKind::InvalidDigit), "x".parse::<i32>().unwrap_err().to_string());
    assert_eq!(int_error_text(IntErrorKind::PosOverflow), "9999999999".parse::<i32>().unwrap_err().to_string());
    assert_eq!(int_error_text(IntErrorKind::NegOverflow), "-9999999999".parse::<i32>().unwrap_err().to_string());
}
