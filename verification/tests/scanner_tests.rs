use proxide::common::config::ScannerConfig;
use proxide::common::errors::ProxyError;
use proxide::common::time::Duration;
use proxide::common::types::{ProxyConfig, ProxyType};
use proxide::net::{Ipv4Addr, SocketAddr};
use proxide::protocols::{HttpProxyChecker, ProxyChecker};
use proxide::scanner::{AnonymityLevel, ScanResult, Scanner, ScannerBuilder};

fn addr() -> SocketAddr {
    SocketAddr::new_v4(Ipv4Addr::new(192, 0, 2, 1), 3128)
}

#[test]
fn default_config() {
    let c = ScannerConfig::default();
    assert_eq!(c.concurrency, 100);
    assert_eq!(c.timeout, Duration::from_secs(10));
    assert_eq!(c.retry_count, 2);
    assert!(!c.check_all_types);
    assert_eq!(c.preferred_types, vec![ProxyType::Http, ProxyType::Socks5]);
    assert_eq!(c.verify_url.as_deref(), Some("http://www.google.com"));
}

#[test]
fn builder_sets_each_field() {
    let s = ScannerBuilder::new()
        .with_concurrency(7)
        .with_timeout(Duration::from_secs(3))
        .with_retry_count(5)
        .check_all_types(true)
        .with_preferred_types(vec![ProxyType::Socks4])
        .with_verify_url(Some("http://example.com".to_string()))
        .build();
    let c = s.config();
    assert_eq!(c.concurrency, 7);
    assert_eq!(c.timeout.as_secs(), 3);
    assert_eq!(c.retry_count, 5);
    assert!(c.check_all_types);
    assert_eq!(c.preferred_types, vec![ProxyType::Socks4]);
    assert_eq!(c.verify_url.as_deref(), Some("http://example.com"));
    assert_eq!(s.checker_for(ProxyType::Http).unwrap().verify_url(), "http://example.com");
}

#[test]
fn default_scanner_checks_http_types_only() {
    let s = Scanner::builder().build();
    assert_eq!(s.checker_for(ProxyType::Http).unwrap().verify_url(), "http://www.google.com");
    assert!(s.checker_for(ProxyType::Https).is_ok());
    for t in [ProxyType::Socks4, ProxyType::Socks5, ProxyType::Ssl, ProxyType::Pop3] {
        assert!(matches!(s.checker_for(t), Err(ProxyError::UnsupportedProxyType)));
    }
}

#[test]
fn scanner_without_http_preference_has_no_checker() {
    let s = Scanner::builder().with_preferred_types(vec![ProxyType::Socks5]).build();
    assert!(matches!(s.checker_for(ProxyType::Http), Err(ProxyError::UnsupportedProxyType)));
    let s = Scanner::builder().with_preferred_types(vec![]).check_all_types(true).build();
    assert!(s.checker_for(ProxyType::Https).is_ok());
    let s = Scanner::builder().with_preferred_types(vec![ProxyType::Https]).build();
    assert!(s.checker_for(ProxyType::Http).is_ok());
}

#[test]
fn missing_verify_url_falls_back() {
    let s = Scanner::builder().with_verify_url(None).build();
    assert_eq!(s.checker_for(ProxyType::Http).unwrap().verify_url(), "http://google.com");
}

#[test]
fn http_checker_supports_http_types() {
    let c = HttpProxyChecker::new("http://x".to_string());
    assert!(c.supports_type(ProxyType::Http));
    assert!(c.supports_type(ProxyType::Https));
    assert!(!c.supports_type(ProxyType::Socks5));
    assert!(!c.supports_type(ProxyType::Transparent));
}

#[test]
fn result_of_working_proxy() {
    let p = ProxyConfig::new(addr(), ProxyType::Http);
    let r = ScanResult::from_check(p, Ok(()), Duration::new(1, 500));
    assert!(r.is_working);
    assert_eq!(r.address, addr());
    assert_eq!(r.proxy_type, ProxyType::Http);
    assert_eq!(r.latency, Some(Duration::new(1, 500)));
    assert_eq!(r.error, None);
    assert_eq!(r.anonymity_level, Some(AnonymityLevel::Anonymous));
}

#[test]
fn result_of_failed_proxy() {
    let p = ProxyConfig::new(addr(), ProxyType::Socks5);
    let r = ScanResult::from_check(p, Err(ProxyError::UnsupportedProxyType), Duration::from_secs(0));
    assert!(!r.is_working);
    assert_eq!(r.latency, None);
    assert_eq!(r.error.as_deref(), Some("Unsupported proxy type"));
    assert_eq!(r.anonymity_level, None);
}

#[test]
fn error_messages() {
    assert_eq!(ProxyError::AuthenticationFailed.message(), "Authentication failed");
    assert_eq!(ProxyError::Timeout.message(), "Connection timed out");
    assert_eq!(ProxyError::ProtocolError("bad".to_string()).message(), "Protocol error: bad");
    assert_eq!(ProxyError::InvalidResponse("odd".to_string()).message(), "Invalid response: odd");
    assert!(ProxyError::Timeout.source().is_none());
}

#[test]
fn proxy_config_builders() {
    let p = ProxyConfig::new(addr(), ProxyType::Https);
    assert_eq!(p.timeout, Duration::from_secs(10));
    assert!(p.username.is_none() && p.password.is_none());
    let p = p.with_auth("u".to_string(), "p".to_string()).with_timeout(Duration::from_secs(2));
    assert_eq!(p.username.as_deref(), Some("u"));
    assert_eq!(p.password.as_deref(), Some("p"));
    assert_eq!(p.timeout.as_secs(), 2);
    assert_eq!(p.proxy_type, ProxyType::Https);
}

#[test]
fn duration_carries_nanoseconds() {
    let d = Duration::new(1, 2_500_000_000);
    assert_eq!(d.as_secs(), 3);
    assert_eq!(d.subsec_nanos(), 500_000_000);
}
