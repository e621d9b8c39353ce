use proxide::common::types::ProxyType;
use proxide::digits::IntParseError;
use proxide::options::{scanner_from_options, types_from_names, OptionsError};

#[test]
fn defaults_with_numbers() {
    let s = scanner_from_options("50", "3", None).unwrap();
    let c = s.config();
    assert_eq!(c.concurrency, 50);
    assert_eq!(c.timeout.as_secs(), 3);
    assert_eq!(c.preferred_types, vec![ProxyType::Http, ProxyType::Socks5]);
    assert!(s.checker_for(ProxyType::Http).is_ok());
}

#[test]
fn type_names_set_preferred_types() {
    let s = scanner_from_options("1", "1", Some(vec!["SOCKS5".to_string(), "imap".to_string()])).unwrap();
    assert_eq!(s.config().preferred_types, vec![ProxyType::Socks5, ProxyType::Imap]);
    assert!(s.checker_for(ProxyType::Http).is_err());
}

#[test]
fn bad_options() {
    assert!(matches!(
        scanner_from_options("x", "1", None),
        Err(OptionsError::InvalidConcurrency(IntParseError::InvalidDigit))
    ));
    assert!(matches!(
        scanner_from_options("1", "", None),
        Err(OptionsError::InvalidTimeout(IntParseError::Empty))
    ));
    assert!(matches!(
        scanner_from_options("1", "1", Some(vec!["http".to_string(), "gopher".to_string(), "x".to_string()])),
        Err(OptionsError::UnsupportedType(n)) if n == "gopher"
    ));
}

#[test]
fn names_to_types() {
    assert_eq!(types_from_names(&vec!["Http".to_string(), "SSL".to_string()]), Ok(vec![ProxyType::Http, ProxyType::Ssl]));
    assert_eq!(types_from_names(&vec!["smtp".to_string(), "bogus".to_string()]), Err(1));
    assert_eq!(types_from_names(&vec![]), Ok(vec![]));
}
