use proxide::digits::IntParseError;
use proxide::net::Ipv4Addr;
use proxide::proxy::{Proxy, ProxyParseError, ProxyType};

#[test]
fn parses_colon_form() {
    let p = Proxy::parse("socks5:1.2.3.4:1080").unwrap();
    assert_eq!(p.proxy_type, ProxyType::Socks5);
    assert_eq!(p.ip, Ipv4Addr::new(1, 2, 3, 4));
    assert_eq!(p.port, 1080);
    let p: Proxy = "http:10.0.0.1:8080:extra:fields".parse().unwrap();
    assert_eq!(p.proxy_type, ProxyType::Http);
    assert_eq!(p.port, 8080);
    let p = Proxy::parse("ftp:10.0.0.1:21").unwrap();
    assert_eq!(p.proxy_type, ProxyType::Unknown);
    let p = Proxy::parse("HTTP:10.0.0.1:21").unwrap();
    assert_eq!(p.proxy_type, ProxyType::Unknown);
}

#[test]
fn refuses_bad_text() {
    assert_eq!(Proxy::parse("http").unwrap_err(), ProxyParseError::MissingAddress);
    assert_eq!(Proxy::parse("http:1.2.3.4").unwrap_err(), ProxyParseError::MissingPort);
    assert_eq!(Proxy::parse("http:1.2.3:80").unwrap_err(), ProxyParseError::InvalidAddress);
    assert_eq!(
        Proxy::parse("http:1.2.3.4:99999").unwrap_err(),
        ProxyParseError::InvalidPort(IntParseError::PosOverflow)
    );
    assert_eq!(
        Proxy::parse("http:1.2.3.4:").unwrap_err(),
        ProxyParseError::InvalidPort(IntParseError::Empty)
    );
    assert_eq!(Proxy::parse("http:1.2.3.4:").unwrap_err().message(), "cannot parse integer from empty string");
    assert_eq!(Proxy::parse("http").unwrap_err().message(), "invalid format");
    assert_eq!(Proxy::parse("http:x:1").unwrap_err().message(), "invalid IPv4 address syntax");
    assert_eq!(Proxy::parse("http:1.1.1.1:x").unwrap_err().message(), "invalid digit found in string");
}

#[test]
fn display_form() {
    let p = Proxy { proxy_type: ProxyType::Socks4, ip: Ipv4Addr::new(127, 0, 0, 1), port: 9050 };
    assert_eq!(p.to_string(), "socks4://127.0.0.1:9050");
    let p = Proxy { proxy_type: ProxyType::Unknown, ip: Ipv4Addr::new(8, 8, 8, 8), port: 53 };
    assert_eq!(p.to_string(), "https://8.8.8.8:53");
    assert_eq!(ProxyType::Http.to_string(), "http");
    assert_eq!(ProxyType::Socks5.to_string(), "socks5");
}

#[test]
fn colon_form_reads_back() {
    for t in [ProxyType::Socks5, ProxyType::Socks4, ProxyType::Https, ProxyType::Http, ProxyType::Unknown] {
        let p = Proxy { proxy_type: t, ip: Ipv4Addr::new(192, 0, 2, 7), port: 3128 };
        let text = format!("{}:192.0.2.7:3128", t.to_string());
        let q = Proxy::parse(&text).unwrap();
        let expected = if t == ProxyType::Unknown { ProxyType::Https } else { t };
        assert_eq!(q.proxy_type, expected);
        assert_eq!(q.ip, p.ip);
        assert_eq!(q.port, p.port);
    }
}

#[test]
fn display_form_does_not_read_back() {
    let p = Proxy { proxy_type: ProxyType::Http, ip: Ipv4Addr::new(1, 2, 3, 4), port: 80 };
    assert_eq!(Proxy::parse(&p.to_string()).unwrap_err(), ProxyParseError::InvalidAddress);
}
