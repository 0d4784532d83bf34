use busytube::decimal::parse_decimal;

#[test]
fn digits_are_read_most_significant_first() {
    assert_eq!(parse_decimal("1709569"), Some(1709569));
    assert_eq!(parse_decimal("0"), Some(0));
    assert_eq!(parse_decimal("007"), Some(7));
    assert_eq!(parse_decimal("10"), Some(10));
}

#[test]
fn the_largest_number_that_fits_is_read() {
    assert_eq!(parse_decimal("18446744073709551615"), Some(u64::MAX));
    assert_eq!(parse_decimal("00018446744073709551615"), Some(u64::MAX));
}

#[test]
fn a_number_that_does_not_fit_is_none() {
    assert_eq!(parse_decimal("18446744073709551616"), None);
    assert_eq!(parse_decimal("18446744073709551620"), None);
    assert_eq!(parse_decimal("99999999999999999999"), None);
    assert_eq!(parse_decimal("184467440737095516150"), None);
}

#[test]
fn anything_but_digits_is_none() {
    assert_eq!(parse_decimal(""), None);
    assert_eq!(parse_decimal("+1"), None);
    assert_eq!(parse_decimal("-1"), None);
    assert_eq!(parse_decimal("12a"), None);
    assert_eq!(parse_decimal(" 12"), None);
    assert_eq!(parse_decimal("1.5"), None);
    assert_eq!(parse_decimal("/"), None);
    assert_eq!(parse_decimal(":"), None);
    // Digits of other scripts are digits to a pattern, and no number here.
    assert_eq!(parse_decimal("\u{661}\u{662}\u{663}"), None);
    assert_eq!(parse_decimal("12\u{663}"), None);
}

#[test]
fn it_agrees_with_the_standard_parser_on_digit_runs() {
    for text in ["0", "5", "42", "0000", "1844674407370955161", "18446744073709551615", "18446744073709551616"] {
        assert_eq!(parse_decimal(text), text.parse::<u64>().ok(), "{text}");
    }
}
