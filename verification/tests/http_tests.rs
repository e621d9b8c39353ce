use proxide::common::errors::ProxyError;
use proxide::common::time::Duration;
use proxide::common::types::{ProxyConfig, ProxyType};
use proxide::net::{Ipv4Addr, Ipv6Addr, SocketAddr};
use proxide::protocols::http::{classify_failure, proxy_url, request_failure};
use proxide::protocols::HttpProxyChecker;

fn v4() -> SocketAddr {
    SocketAddr::new_v4(Ipv4Addr::new(10, 1, 2, 3), 8080)
}

fn client_error() -> reqwest::Error {
    match reqwest::Proxy::all("") {
        Err(e) => e,
        Ok(_) => panic!("an empty proxy URL is accepted"),
    }
}

#[test]
fn proxy_urls() {
    assert_eq!(proxy_url(&ProxyConfig::new(v4(), ProxyType::Http)).unwrap(), "http://10.1.2.3:8080");
    assert_eq!(proxy_url(&ProxyConfig::new(v4(), ProxyType::Https)).unwrap(), "https://10.1.2.3:8080");
    let six = SocketAddr::new_v6(Ipv6Addr::new([0x2001, 0xdb8, 0, 0, 0, 0, 0, 1]), 3128);
    assert_eq!(proxy_url(&ProxyConfig::new(six, ProxyType::Http)).unwrap(), "http://[2001:db8::1]:3128");
    assert!(matches!(
        proxy_url(&ProxyConfig::new(v4(), ProxyType::Socks5)),
        Err(ProxyError::UnsupportedProxyType)
    ));
}

#[test]
fn plan_without_credentials() {
    let c = HttpProxyChecker::new("http://example.com".to_string());
    let p = ProxyConfig::new(v4(), ProxyType::Http).with_timeout(Duration::from_secs(4));
    let plan = c.prepare(&p).ok().unwrap();
    assert_eq!(plan.proxy_url, "http://10.1.2.3:8080");
    assert_eq!(plan.proxies.len(), 1);
    assert_eq!(plan.timeout.as_secs(), 4);
    assert_eq!(plan.verify_url, "http://example.com");
}

#[test]
fn plan_with_credentials() {
    let c = HttpProxyChecker::new("http://example.com".to_string());
    let p = ProxyConfig::new(v4(), ProxyType::Https).with_auth("me".to_string(), "secret".to_string());
    let plan = c.prepare(&p).ok().unwrap();
    assert_eq!(plan.proxy_url, "https://10.1.2.3:8080");
    assert_eq!(plan.proxies.len(), 2);
    let proxies: Vec<reqwest::Proxy> = plan.proxies.into_iter().map(|e| e.into_proxy()).collect();
    assert_eq!(proxies.len(), 2);
}

#[test]
fn plan_for_other_types() {
    let c = HttpProxyChecker::new("http://example.com".to_string());
    let p = ProxyConfig::new(v4(), ProxyType::Socks4);
    assert!(matches!(c.prepare(&p), Err(ProxyError::UnsupportedProxyType)));
}

#[test]
fn failures_are_classified() {
    assert!(matches!(classify_failure(true, true, client_error(), "t".to_string()), ProxyError::Timeout));
    assert!(matches!(classify_failure(false, true, client_error(), "t".to_string()), ProxyError::ConnectionFailed(_)));
    assert!(matches!(
        classify_failure(false, false, client_error(), "t".to_string()),
        ProxyError::ProtocolError(m) if m == "t"
    ));
}

#[test]
fn builder_error_is_a_protocol_error() {
    let e = client_error();
    let text = e.to_string();
    match request_failure(e) {
        ProxyError::ProtocolError(m) => assert_eq!(m, text),
        other => panic!("unexpected {:?}", other),
    }
}

#[test]
fn connection_failure_message_and_source() {
    let e = ProxyError::ConnectionFailed(client_error());
    let m = e.message();
    assert!(m.starts_with("Connection failed: "));
    assert_eq!(m, format!("Connection failed: {}", client_error()));
    assert!(e.source().is_some());
}
