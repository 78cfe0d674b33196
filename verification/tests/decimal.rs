use yumpu_dl::decimal::{append_decimal, decimal_string, parse_u64};

#[test]
fn numerals_are_written_without_leading_zeros() {
    assert_eq!(decimal_string(0), "0");
    assert_eq!(decimal_string(7), "7");
    assert_eq!(decimal_string(10), "10");
    assert_eq!(decimal_string(66625223), "66625223");
    assert_eq!(decimal_string(u64::MAX), "18446744073709551615");
}

#[test]
fn numerals_are_appended_to_what_is_there() {
    let mut text = String::from("page ");
    append_decimal(&mut text, 305);
    assert_eq!(text, "page 305");
}

#[test]
fn digits_are_read_as_their_value() {
    assert_eq!(parse_u64("0"), Some(0));
    assert_eq!(parse_u64("42"), Some(42));
    assert_eq!(parse_u64("0042"), Some(42));
    assert_eq!(parse_u64("18446744073709551615"), Some(u64::MAX));
}

#[test]
fn one_leading_plus_sign_is_allowed() {
    assert_eq!(parse_u64("+42"), Some(42));
    assert_eq!(parse_u64("++42"), None);
    assert_eq!(parse_u64("+"), None);
    assert_eq!(parse_u64("4+2"), None);
}

#[test]
fn what_is_no_numeral_is_not_read() {
    assert_eq!(parse_u64(""), None);
    assert_eq!(parse_u64("-1"), None);
    assert_eq!(parse_u64("1 "), None);
    assert_eq!(parse_u64("1.5"), None);
    assert_eq!(parse_u64("abc"), None);
}

#[test]
fn values_beyond_64_bits_are_not_read() {
    assert_eq!(parse_u64("18446744073709551616"), None);
    assert_eq!(parse_u64("99999999999999999999999"), None);
    assert_eq!(parse_u64("000000000000000000000000000001"), Some(1));
}

#[test]
fn reading_agrees_with_the_standard_library() {
    let samples = [
        "0", "1", "+1", "-1", "", "+", "12345", "0012", "18446744073709551615",
        "18446744073709551616", "1x", "x1", " 1", "1 ", "\u{0661}",
    ];
    for text in samples {
        assert_eq!(parse_u64(text), text.parse::<u64>().ok(), "for {:?}", text);
    }
}

#[test]
fn a_numeral_reads_back_as_its_number() {
    let samples = [0u64, 1, 9, 10, 99, 100, 12345, 66625223, u64::MAX - 1, u64::MAX];
    for n in samples {
        assert_eq!(parse_u64(&decimal_string(n)), Some(n));
        assert_eq!(decimal_string(n), n.to_string());
    }
}
