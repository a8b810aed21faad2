use solved_bot::decimal::{format_i64, format_u64, parse_i64, parse_u32};

#[test]
fn parse_u32_accepts_numerals() {
    assert_eq!(parse_u32("0"), Some(0));
    assert_eq!(parse_u32("7"), Some(7));
    assert_eq!(parse_u32("+7"), Some(7));
    assert_eq!(parse_u32("007"), Some(7));
    assert_eq!(parse_u32("4294967295"), Some(u32::MAX));
    assert_eq!(parse_u32("000000000000000000000000004294967295"), Some(u32::MAX));
}

#[test]
fn parse_u32_rejects_everything_else() {
    for text in ["", "+", "-", "-1", "-0", "1 ", " 1", "1_000", "0x10", "1e3", "4294967296", "٣", "1٣", "++1"] {
        assert_eq!(parse_u32(text), None, "{:?}", text);
    }
}

#[test]
fn parse_u32_agrees_with_std() {
    for text in ["12", "+12", "-12", "", "abc", "99999999999", "4294967295", "4294967296", "00", "+0", "1+", "１"] {
        assert_eq!(parse_u32(text), text.parse::<u32>().ok(), "{:?}", text);
    }
}

#[test]
fn parse_i64_accepts_numerals() {
    assert_eq!(parse_i64("0"), Some(0));
    assert_eq!(parse_i64("-0"), Some(0));
    assert_eq!(parse_i64("+15"), Some(15));
    assert_eq!(parse_i64("-15"), Some(-15));
    assert_eq!(parse_i64("9223372036854775807"), Some(i64::MAX));
    assert_eq!(parse_i64("-9223372036854775808"), Some(i64::MIN));
    assert_eq!(parse_i64("-0009223372036854775808"), Some(i64::MIN));
}

#[test]
fn parse_i64_rejects_everything_else() {
    for text in ["", "+", "-", "--1", "+-1", "1-", "9223372036854775808", "-9223372036854775809", "12a", " 12", "é"] {
        assert_eq!(parse_i64(text), None, "{:?}", text);
    }
}

#[test]
fn parse_i64_agrees_with_std() {
    for text in ["12", "+12", "-12", "", "-", "9223372036854775807", "9223372036854775808", "-9223372036854775808", "-9223372036854775809", "1.5"] {
        assert_eq!(parse_i64(text), text.parse::<i64>().ok(), "{:?}", text);
    }
}

#[test]
fn format_u64_values() {
    assert_eq!(format_u64(0), "0");
    assert_eq!(format_u64(9), "9");
    assert_eq!(format_u64(10), "10");
    assert_eq!(format_u64(1905), "1905");
    assert_eq!(format_u64(u64::MAX), "18446744073709551615");
}

#[test]
fn format_i64_values() {
    assert_eq!(format_i64(0), "0");
    assert_eq!(format_i64(-1), "-1");
    assert_eq!(format_i64(42), "42");
    assert_eq!(format_i64(i64::MAX), "9223372036854775807");
    assert_eq!(format_i64(i64::MIN), "-9223372036854775808");
}

#[test]
fn formatting_agrees_with_std() {
    for n in [0u64, 1, 99, 100, 12345678901234567890] {
        assert_eq!(format_u64(n), n.to_string());
    }
    for n in [0i64, -1, 1, -1234567890123, i64::MIN, i64::MAX] {
        assert_eq!(format_i64(n), n.to_string());
    }
}

#[test]
fn numerals_read_back() {
    for n in [0u32, 1, 10, 4096, u32::MAX] {
        assert_eq!(parse_u32(&format_u64(n as u64)), Some(n));
    }
    for n in [0i64, -1, 1, i64::MIN, i64::MAX, -987654321] {
        assert_eq!(parse_i64(&format_i64(n)), Some(n));
    }
}
