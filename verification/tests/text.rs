use grid::text::{
    decimal_text, decimal_text_u64, parse_decimal, parse_decimal_or_zero, signed_decimal_text,
};

#[test]
fn numbers_are_written_in_decimal() {
    assert_eq!(decimal_text(0), "0");
    assert_eq!(decimal_text(7), "7");
    assert_eq!(decimal_text(10), "10");
    assert_eq!(decimal_text(42), "42");
    assert_eq!(decimal_text(1_000_000), "1000000");
    assert_eq!(decimal_text(4_294_967_295), "4294967295");
}

#[test]
fn decimal_text_agrees_with_the_standard_rendering() {
    for n in [0u32, 1, 9, 10, 11, 99, 100, 101, 12345, 99999, 100000, u32::MAX - 1, u32::MAX] {
        assert_eq!(decimal_text(n), n.to_string());
    }
}

#[test]
fn decimal_numbers_are_read() {
    assert_eq!(parse_decimal("0"), Some(0));
    assert_eq!(parse_decimal("7"), Some(7));
    assert_eq!(parse_decimal("42"), Some(42));
    assert_eq!(parse_decimal("007"), Some(7));
    assert_eq!(parse_decimal("+5"), Some(5));
    assert_eq!(parse_decimal("4294967295"), Some(u32::MAX));
    assert_eq!(parse_decimal("00000000000000000000004294967295"), Some(u32::MAX));
}

#[test]
fn other_texts_are_no_numbers() {
    assert_eq!(parse_decimal(""), None);
    assert_eq!(parse_decimal("+"), None);
    assert_eq!(parse_decimal("-"), None);
    assert_eq!(parse_decimal("-1"), None);
    assert_eq!(parse_decimal("++1"), None);
    assert_eq!(parse_decimal("1+"), None);
    assert_eq!(parse_decimal(" 1"), None);
    assert_eq!(parse_decimal("1 "), None);
    assert_eq!(parse_decimal("1a"), None);
    assert_eq!(parse_decimal("a1"), None);
    assert_eq!(parse_decimal("1.0"), None);
    assert_eq!(parse_decimal("0x10"), None);
    assert_eq!(parse_decimal("4294967296"), None);
    assert_eq!(parse_decimal("99999999999999999999999999"), None);
    assert_eq!(parse_decimal("١٢٣"), None);
    assert_eq!(parse_decimal("1é"), None);
    assert_eq!(parse_decimal("/"), None);
    assert_eq!(parse_decimal(":"), None);
}

#[test]
fn parse_decimal_agrees_with_the_standard_parser() {
    for text in [
        "0", "1", "+1", "-1", "", "+", "-", "00", "+00", "4294967295", "4294967296", "42949672950",
        "12ab", " 12", "12 ", "+-1", "1_000", "٣", "+٣", "18446744073709551616",
    ] {
        assert_eq!(parse_decimal(text), text.parse::<u32>().ok(), "{:?}", text);
    }
}

#[test]
fn written_numbers_are_read_back() {
    for n in [0u32, 1, 9, 10, 255, 65536, 999_999_999, 1_000_000_000, u32::MAX] {
        assert_eq!(parse_decimal(&decimal_text(n)), Some(n));
    }
}

#[test]
fn an_unreadable_number_counts_as_zero() {
    assert_eq!(parse_decimal_or_zero("17"), 17);
    assert_eq!(parse_decimal_or_zero("seventeen"), 0);
    assert_eq!(parse_decimal_or_zero(""), 0);
    assert_eq!(parse_decimal_or_zero("4294967296"), 0);
}

#[test]
fn large_and_negative_numbers_are_written_in_decimal() {
    assert_eq!(decimal_text_u64(0), "0");
    assert_eq!(decimal_text_u64(4_294_967_296), "4294967296");
    assert_eq!(decimal_text_u64(u64::MAX), "18446744073709551615");
    assert_eq!(signed_decimal_text(0), "0");
    assert_eq!(signed_decimal_text(17), "17");
    assert_eq!(signed_decimal_text(-1), "-1");
    assert_eq!(signed_decimal_text(-10), "-10");
    assert_eq!(signed_decimal_text(i64::MAX), "9223372036854775807");
    assert_eq!(signed_decimal_text(i64::MIN), "-9223372036854775808");
    for n in [-123_456_789i64, -2, 1, 1_700_000_000] {
        assert_eq!(signed_decimal_text(n), n.to_string());
    }
}
