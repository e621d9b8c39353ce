use proxide::digits::{decimal_string, parse_unsigned, IntParseError};
use proxide::text::{chars_of, split_chars, string_of, trim_chars};

fn chars(s: &str) -> Vec<char> {
    s.chars().collect()
}

fn pieces(s: &str, sep: char) -> Vec<String> {
    split_chars(&chars(s), sep)
        .iter()
        .map(|p| p.iter().collect::<String>())
        .collect()
}

#[test]
fn split_keeps_empty_pieces() {
    assert_eq!(pieces("a::b", ':'), vec!["a", "", "b"]);
    assert_eq!(pieces("", ':'), vec![""]);
    assert_eq!(pieces(":", ':'), vec!["", ""]);
    assert_eq!(pieces("abc", ':'), vec!["abc"]);
    assert_eq!(pieces("1.2.3.4", '.'), vec!["1", "2", "3", "4"]);
}

#[test]
fn trim_removes_unicode_white_space() {
    let t: String = trim_chars(&chars(" \t\r\n x y \u{3000}\u{a0}")).into_iter().collect();
    assert_eq!(t, "x y");
    let t: String = trim_chars(&chars("   ")).into_iter().collect();
    assert_eq!(t, "");
    let t: String = trim_chars(&chars("\u{200b}a")).into_iter().collect();
    assert_eq!(t, "\u{200b}a");
}

#[test]
fn chars_and_strings_round_trip() {
    let c = chars_of("héllo");
    assert_eq!(c, vec!['h', 'é', 'l', 'l', 'o']);
    assert_eq!(string_of(&c), "héllo");
}

#[test]
fn parse_unsigned_follows_from_str() {
    assert_eq!(parse_unsigned(&chars("8080"), 65535), Ok(8080));
    assert_eq!(parse_unsigned(&chars("+5"), 65535), Ok(5));
    assert_eq!(parse_unsigned(&chars("007"), 65535), Ok(7));
    assert_eq!(parse_unsigned(&chars("65535"), 65535), Ok(65535));
    assert_eq!(parse_unsigned(&chars(""), 65535), Err(IntParseError::Empty));
    assert_eq!(parse_unsigned(&chars("+"), 65535), Err(IntParseError::InvalidDigit));
    assert_eq!(parse_unsigned(&chars("-1"), 65535), Err(IntParseError::InvalidDigit));
    assert_eq!(parse_unsigned(&chars("12a"), 65535), Err(IntParseError::InvalidDigit));
    assert_eq!(parse_unsigned(&chars("65536"), 65535), Err(IntParseError::PosOverflow));
    assert_eq!(parse_unsigned(&chars("99999x"), 65535), Err(IntParseError::PosOverflow));
    assert_eq!(
        parse_unsigned(&chars("18446744073709551615"), u64::MAX),
        Ok(u64::MAX)
    );
    assert_eq!(
        parse_unsigned(&chars("18446744073709551616"), u64::MAX),
        Err(IntParseError::PosOverflow)
    );
    for s in ["0", "1", "42", "255", "256", "+7", "", "x", "99999"] {
        let expected = s.parse::<u8>().map(|v| v as u64).map_err(|_| ());
        let got = parse_unsigned(&chars(s), 255).map_err(|_| ());
        assert_eq!(got, expected, "{}", s);
    }
}

#[test]
fn decimal_of_numbers() {
    assert_eq!(decimal_string(0), "0");
    assert_eq!(decimal_string(7), "7");
    assert_eq!(decimal_string(65535), "65535");
    assert_eq!(decimal_string(u64::MAX), u64::MAX.to_string());
}

#[test]
fn decimal_parses_back() {
    for n in [0u64, 9, 10, 99, 100, 12345, 65535] {
        assert_eq!(parse_unsigned(&chars(&decimal_string(n)), 65535), Ok(n));
    }
}
