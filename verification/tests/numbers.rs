use mml_parser::number::parse_number;

#[test]
fn plain_digits() {
    assert_eq!(parse_number("0"), Some(0));
    assert_eq!(parse_number("12"), Some(12));
    assert_eq!(parse_number("100"), Some(100));
}

#[test]
fn leading_zeros_do_not_count() {
    assert_eq!(parse_number("007"), Some(7));
    assert_eq!(parse_number("-000"), Some(0));
}

#[test]
fn signs() {
    assert_eq!(parse_number("-5"), Some(-5));
    assert_eq!(parse_number("+7"), Some(7));
    assert_eq!(parse_number("-0"), Some(0));
}

#[test]
fn a_sign_alone_is_no_number() {
    assert_eq!(parse_number("+"), None);
    assert_eq!(parse_number("-"), None);
    assert_eq!(parse_number("+-1"), None);
    assert_eq!(parse_number("--1"), None);
}

#[test]
fn the_empty_text_is_no_number() {
    assert_eq!(parse_number(""), None);
}

#[test]
fn anything_but_digits_is_refused() {
    assert_eq!(parse_number("1x"), None);
    assert_eq!(parse_number("x1"), None);
    assert_eq!(parse_number(" 1"), None);
    assert_eq!(parse_number("1 "), None);
    assert_eq!(parse_number("1,2"), None);
    assert_eq!(parse_number("1.5"), None);
    assert_eq!(parse_number("1-"), None);
}

#[test]
fn digits_outside_ascii_are_refused() {
    assert_eq!(parse_number("\u{0661}\u{0662}"), None);
    assert_eq!(parse_number("\u{ff11}"), None);
}

#[test]
fn the_largest_and_the_smallest() {
    assert_eq!(parse_number(&isize::MAX.to_string()), Some(isize::MAX));
    assert_eq!(parse_number(&isize::MIN.to_string()), Some(isize::MIN));
    assert_eq!(parse_number(&format!("+{}", isize::MAX)), Some(isize::MAX));
}

#[test]
fn one_past_the_range_is_refused() {
    let above = (isize::MAX as i128 + 1).to_string();
    let below = (isize::MIN as i128 - 1).to_string();
    assert_eq!(parse_number(&above), None);
    assert_eq!(parse_number(&below), None);
    assert_eq!(parse_number("99999999999999999999999999999999999999"), None);
    assert_eq!(parse_number("-99999999999999999999999999999999999999"), None);
    assert_eq!(parse_number("99999999999999999999999999999999999999x"), None);
}

#[test]
fn agrees_with_the_standard_library() {
    let samples = [
        "", "0", "1", "-1", "+1", "12", "-12", "+12", "007", "+", "-", "a", "1a", "a1", "1 2",
        "9223372036854775807", "9223372036854775808", "-9223372036854775808",
        "-9223372036854775809", "2147483647", "2147483648", "-2147483648", "-2147483649",
        "18446744073709551615", "0x10", "1e3", "١٢", "１２",
    ];
    for text in samples {
        assert_eq!(parse_number(text), text.parse::<isize>().ok());
    }
}
