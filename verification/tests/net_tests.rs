use proxide::net::{parse_ipv4, Ipv4Addr, Ipv6Addr, SocketAddr, SocketAddrV6};

fn chars(s: &str) -> Vec<char> {
    s.chars().collect()
}

#[test]
fn ipv4_parses_dotted_decimal() {
    assert_eq!(parse_ipv4(&chars("192.168.0.1")), Some(Ipv4Addr::new(192, 168, 0, 1)));
    assert_eq!(parse_ipv4(&chars("0.0.0.0")), Some(Ipv4Addr::new(0, 0, 0, 0)));
    assert_eq!(parse_ipv4(&chars("255.255.255.255")), Some(Ipv4Addr::new(255, 255, 255, 255)));
}

#[test]
fn ipv4_refuses_other_text() {
    for s in [
        "", "1.2.3", "1.2.3.4.5", "256.1.1.1", "01.2.3.4", "001.1.1.1", "1..2.3", "1.2.3.4 ",
        " 1.2.3.4", "+1.2.3.4", "1234.1.1.1", "a.b.c.d", "1.2.3.-4", "١.2.3.4",
    ] {
        assert_eq!(parse_ipv4(&chars(s)), None, "{:?}", s);
    }
}

#[test]
fn ipv4_socket_text() {
    let a = SocketAddr::new_v4(Ipv4Addr::new(10, 0, 0, 1), 8080);
    assert_eq!(a.to_string(), "10.0.0.1:8080");
    assert_eq!(a.port(), 8080);
}

fn v6(segments: [u16; 8]) -> String {
    let s = SocketAddr::new_v6(Ipv6Addr::new(segments), 1).to_string();
    s[1..s.len() - 3].to_string()
}

#[test]
fn ipv6_text_compresses_the_longest_zero_run() {
    assert_eq!(v6([0x2001, 0xdb8, 0, 0, 0, 0, 0, 1]), "2001:db8::1");
    assert_eq!(v6([0; 8]), "::");
    assert_eq!(v6([0, 0, 0, 0, 0, 0, 0, 1]), "::1");
    assert_eq!(v6([1, 0, 0, 0, 0, 0, 0, 0]), "1::");
    assert_eq!(v6([1, 0, 0, 2, 0, 0, 0, 3]), "1:0:0:2::3");
    assert_eq!(v6([1, 0, 0, 2, 0, 0, 3, 4]), "1::2:0:0:3:4");
    assert_eq!(v6([1, 0, 2, 3, 4, 5, 6, 7]), "1:0:2:3:4:5:6:7");
    assert_eq!(v6([0xfe80, 0, 0, 0, 0xabcd, 0xef, 0x1234, 0xffff]), "fe80::abcd:ef:1234:ffff");
}

#[test]
fn ipv6_text_of_mapped_addresses() {
    assert_eq!(v6([0, 0, 0, 0, 0, 0xffff, 0xc000, 0x0280]), "::ffff:192.0.2.128");
    assert_eq!(v6([0, 0, 0, 0, 0, 0, 0xc000, 0x0280]), "::c000:280");
}

#[test]
fn ipv6_socket_text() {
    let a = SocketAddr::new_v6(Ipv6Addr::new([0x2001, 0xdb8, 0, 0, 0, 0, 0, 1]), 443);
    assert_eq!(a.to_string(), "[2001:db8::1]:443");
    let scoped = SocketAddr::V6(SocketAddrV6 {
        ip: Ipv6Addr::new([0xfe80, 0, 0, 0, 0, 0, 0, 1]),
        port: 80,
        flowinfo: 0,
        scope_id: 3,
    });
    assert_eq!(scoped.to_string(), "[fe80::1%3]:80");
    assert_eq!(scoped.port(), 80);
}
