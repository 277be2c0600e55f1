use laracli::number::{decimal_text, parse_decimal};

fn chars(text: &str) -> Vec<char> {
    text.chars().collect()
}

fn digits(value: u64) -> String {
    decimal_text(value).iter().collect()
}

#[test]
fn numbers_are_read_from_their_digits() {
    assert_eq!(parse_decimal(&chars("0")), Some(0));
    assert_eq!(parse_decimal(&chars("7")), Some(7));
    assert_eq!(parse_decimal(&chars("1234")), Some(1234));
    assert_eq!(parse_decimal(&chars("+42")), Some(42));
    assert_eq!(parse_decimal(&chars("007")), Some(7));
    assert_eq!(parse_decimal(&chars("18446744073709551615")), Some(u64::MAX));
    assert_eq!(parse_decimal(&chars("00000000000000000000000000000000000012")), Some(12));
}

#[test]
fn what_is_no_number_is_refused() {
    assert_eq!(parse_decimal(&chars("")), None);
    assert_eq!(parse_decimal(&chars("+")), None);
    assert_eq!(parse_decimal(&chars("-1")), None);
    assert_eq!(parse_decimal(&chars("++1")), None);
    assert_eq!(parse_decimal(&chars("12a")), None);
    assert_eq!(parse_decimal(&chars(" 12")), None);
    assert_eq!(parse_decimal(&chars("1 2")), None);
    assert_eq!(parse_decimal(&chars("1.5")), None);
    assert_eq!(parse_decimal(&chars("\u{663}")), None);
}

#[test]
fn numbers_that_are_too_large_are_refused() {
    assert_eq!(parse_decimal(&chars("18446744073709551616")), None);
    assert_eq!(parse_decimal(&chars("99999999999999999999")), None);
    assert_eq!(parse_decimal(&chars("184467440737095516150")), None);
}

#[test]
fn parsing_agrees_with_the_standard_library() {
    for text in ["0", "+0", "12", "+", "", "-3", "4294967296", "18446744073709551615", "1e3", "0x10"] {
        assert_eq!(parse_decimal(&chars(text)), text.parse::<u64>().ok(), "{:?}", text);
    }
}

#[test]
fn numbers_are_written_without_leading_zeros() {
    assert_eq!(digits(0), "0");
    assert_eq!(digits(9), "9");
    assert_eq!(digits(10), "10");
    assert_eq!(digits(1234567890), "1234567890");
    assert_eq!(digits(u64::MAX), "18446744073709551615");
}

#[test]
fn written_numbers_read_back() {
    for value in [0, 1, 9, 10, 99, 100, 65535, 4294967295, 4294967296, u64::MAX - 1, u64::MAX] {
        assert_eq!(parse_decimal(&decimal_text(value)), Some(value));
        assert_eq!(digits(value), value.to_string());
    }
}
