use moho::error::Reason;
use moho::literal::{float_text, parse_bool, parse_byte, parse_integer, push_decimal};

#[test]
fn bytes() {
    assert_eq!(parse_byte("0"), Ok(0));
    assert_eq!(parse_byte("255"), Ok(255));
    assert_eq!(parse_byte("+7"), Ok(7));
    assert_eq!(parse_byte("007"), Ok(7));
    assert_eq!(parse_byte("256"), Err(Reason::NumberTooLarge));
    assert_eq!(parse_byte("99999999999999999999999"), Err(Reason::NumberTooLarge));
    assert_eq!(parse_byte(""), Err(Reason::EmptyNumber));
    assert_eq!(parse_byte("+"), Err(Reason::InvalidDigit));
    assert_eq!(parse_byte("-1"), Err(Reason::InvalidDigit));
    assert_eq!(parse_byte("h"), Err(Reason::InvalidDigit));
    assert_eq!(parse_byte("1 "), Err(Reason::InvalidDigit));
    assert_eq!(parse_byte("999x"), Err(Reason::InvalidDigit));
}

#[test]
fn integers() {
    assert_eq!(parse_integer("0"), Ok(0));
    assert_eq!(parse_integer("-0"), Ok(0));
    assert_eq!(parse_integer("+42"), Ok(42));
    assert_eq!(parse_integer("-42"), Ok(-42));
    assert_eq!(parse_integer("9223372036854775807"), Ok(i64::MAX));
    assert_eq!(parse_integer("-9223372036854775808"), Ok(i64::MIN));
    assert_eq!(parse_integer("9223372036854775808"), Err(Reason::NumberTooLarge));
    assert_eq!(parse_integer("-9223372036854775809"), Err(Reason::NumberTooSmall));
    assert_eq!(parse_integer("18446744073709551616"), Err(Reason::NumberTooLarge));
    assert_eq!(parse_integer("-18446744073709551616"), Err(Reason::NumberTooSmall));
    assert_eq!(parse_integer(""), Err(Reason::EmptyNumber));
    assert_eq!(parse_integer("-"), Err(Reason::InvalidDigit));
    assert_eq!(parse_integer("1_000"), Err(Reason::InvalidDigit));
    assert_eq!(parse_integer("12a"), Err(Reason::InvalidDigit));
}

#[test]
fn integers_agree_with_the_standard_library() {
    for text in ["0", "-0", "+42", "-42", "007", "9223372036854775807", "-9223372036854775808"] {
        assert_eq!(parse_integer(text).ok(), text.parse::<i64>().ok());
    }
    for text in ["", "-", "+", "12a", " 1", "9223372036854775808", "-9223372036854775809"] {
        assert!(parse_integer(text).is_err());
        assert!(text.parse::<i64>().is_err());
    }
    for text in ["0", "255", "+7", "256", "-1", "h", ""] {
        assert_eq!(parse_byte(text).ok(), text.parse::<u8>().ok());
    }
}

#[test]
fn truth_values() {
    assert_eq!(parse_bool("true"), Ok(true));
    assert_eq!(parse_bool("false"), Ok(false));
    assert_eq!(parse_bool("True"), Err(Reason::NotABool));
    assert_eq!(parse_bool(""), Err(Reason::NotABool));
}

#[test]
fn float_texts() {
    assert!(float_text("3.14"));
    assert!(float_text("-0.5"));
    assert!(float_text("10.000"));
    assert!(!float_text("3."));
    assert!(!float_text(".5"));
    assert!(!float_text("3"));
    assert!(!float_text("3.14 "));
    assert!(!float_text("1e5"));
    assert!(!float_text("+1.0"));
    assert!(!float_text(""));
}

#[test]
fn decimals_are_written_as_they_read() {
    for i in [0i64, 7, 10, 42, -1, -10, 1234567890, i64::MAX, i64::MIN] {
        let mut text = String::from("=");
        push_decimal(&mut text, i);
        assert_eq!(text, format!("={}", i));
        assert_eq!(parse_integer(&text[1..]), Ok(i));
    }
}
