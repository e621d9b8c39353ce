use proxide::common::types::{parse_proxy_type, proxy_type_from_lowercase, ProxyType};
use proxide::digits::IntParseError;
use proxide::net::{Ipv4Addr, SocketAddr};
use proxide::proxy_list::{load_proxies, LineFailure, LineNotice};

#[test]
fn reads_entries_and_skips_comments() {
    let l = load_proxies("# list\n\n 1.2.3.4:8080 \r\n5.6.7.8:1080:SOCKS5:user:pw\n9.9.9.9:80:ftp\n");
    assert!(l.failure.is_none());
    assert_eq!(l.proxies.len(), 3);
    assert_eq!(l.proxies[0].address, SocketAddr::new_v4(Ipv4Addr::new(1, 2, 3, 4), 8080));
    assert_eq!(l.proxies[0].proxy_type, ProxyType::Http);
    assert!(l.proxies[0].username.is_none());
    assert_eq!(l.proxies[1].proxy_type, ProxyType::Socks5);
    assert_eq!(l.proxies[1].username.as_deref(), Some("user"));
    assert_eq!(l.proxies[1].password.as_deref(), Some("pw"));
    assert_eq!(l.proxies[2].proxy_type, ProxyType::Http);
    assert_eq!(l.proxies[2].timeout.as_secs(), 10);
    assert_eq!(l.notices.len(), 1);
    assert!(matches!(&l.notices[0], LineNotice::UnknownType(t) if t == "ftp"));
}

#[test]
fn four_fields_carry_no_credentials() {
    let l = load_proxies("1.2.3.4:80:http:user");
    assert_eq!(l.proxies.len(), 1);
    assert!(l.proxies[0].username.is_none());
    assert!(l.proxies[0].password.is_none());
}

#[test]
fn malformed_lines_are_passed_over() {
    let l = load_proxies("nocolon\n1.2.3.4:80");
    assert_eq!(l.proxies.len(), 1);
    assert!(matches!(&l.notices[0], LineNotice::InvalidFormat(t) if t == "nocolon"));
}

#[test]
fn bad_port_stops_reading() {
    let l = load_proxies("1.2.3.4:80\n1.2.3.4:http\n5.6.7.8:81\nbad");
    assert_eq!(l.failure, Some(LineFailure::InvalidPort(IntParseError::InvalidDigit)));
    assert_eq!(l.proxies.len(), 1);
    assert!(l.notices.is_empty());
}

#[test]
fn bad_host_stops_reading() {
    let l = load_proxies("example.com:80\n1.2.3.4:80");
    assert_eq!(l.failure, Some(LineFailure::InvalidAddress));
    assert!(l.proxies.is_empty());
    let l = load_proxies("1.2.3.4:70000");
    assert_eq!(l.failure, Some(LineFailure::InvalidPort(IntParseError::PosOverflow)));
}

#[test]
fn empty_list() {
    let l = load_proxies("");
    assert!(l.proxies.is_empty() && l.notices.is_empty() && l.failure.is_none());
}

#[test]
fn type_names_in_any_case() {
    assert_eq!(parse_proxy_type("HTTPS"), Some(ProxyType::Https));
    assert_eq!(parse_proxy_type("Pop3"), Some(ProxyType::Pop3));
    assert_eq!(parse_proxy_type("Transparent"), Some(ProxyType::Transparent));
    assert_eq!(parse_proxy_type("gopher"), None);
    assert_eq!(proxy_type_from_lowercase("SSL"), None);
    assert_eq!(proxy_type_from_lowercase("ssl"), Some(ProxyType::Ssl));
    assert_eq!(proxy_type_from_lowercase("imap"), Some(ProxyType::Imap));
    assert_eq!(proxy_type_from_lowercase("smtp"), Some(ProxyType::Smtp));
}
