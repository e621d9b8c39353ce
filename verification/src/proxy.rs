use vstd::prelude::*;
use crate::digits::{IntParseError, parse_unsigned, push_decimal, spec_decimal, spec_parse_unsigned};
use crate::net::{Ipv4Addr, parse_ipv4, push_ipv4, spec_ipv4_text, spec_parse_ipv4};
use crate::text::{chars_eq, chars_of, push_char, spec_split, split_chars, views};

verus! {

broadcast use vstd::string::group_string_axioms;

/// A proxy written as `scheme:ip:port`.
#[derive(Debug, Clone)]
pub struct Proxy {
    pub proxy_type: ProxyType,
    pub ip: Ipv4Addr,
    pub port: u16,
}

#[derive(Debug, Clone, Copy, PartialEq, Eq, Structural)]
pub enum ProxyType {
    Socks5,
    Socks4,
    Https,
    Http,
    Unknown,
}

/// Why a text is not a proxy.
#[derive(Debug, Clone, Copy, PartialEq, Eq, Structural)]
pub enum ProxyParseError {
    /// There is no address after the scheme.
    MissingAddress,
    /// The address is not a dotted decimal IPv4 address.
    InvalidAddress,
    /// There is no port after the address.
    MissingPort,
    /// The port is not a number from 0 to 65535.
    InvalidPort(IntParseError),
}

/// The proxy type a scheme names; any other scheme names `Unknown`.
pub open spec fn scheme_type(s: Seq<char>) -> ProxyType {
    if s == "http"@ {
        ProxyType::Http
    } else if s == "https"@ {
        ProxyType::Https
    } else if s == "socks4"@ {
        ProxyType::Socks4
    } else if s == "socks5"@ {
        ProxyType::Socks5
    } else {
        ProxyType::Unknown
    }
}

/// What parsing `s` gives: the pieces between colons are the scheme, the
/// address and the port; pieces after the port are ignored.
pub open spec fn spec_parse_proxy(s: Seq<char>) -> Result<Proxy, ProxyParseError> {
    let parts = spec_split(s, ':');
    if parts.len() < 2 {
        Err(ProxyParseError::MissingAddress)
    } else {
        match spec_parse_ipv4(parts[1]) {
            None => Err(ProxyParseError::InvalidAddress),
            Some(ip) => if parts.len() < 3 {
                Err(ProxyParseError::MissingPort)
            } else {
                match spec_parse_unsigned(parts[2], 65535) {
                    Err(e) => Err(ProxyParseError::InvalidPort(e)),
                    Ok(port) => Ok(
                        Proxy { proxy_type: scheme_type(parts[0]), ip, port: port as u16 },
                    ),
                }
            },
        }
    }
}

/// The scheme a proxy type is written with; `Unknown` is written `https`.
pub open spec fn spec_type_text(t: ProxyType) -> Seq<char> {
    match t {
        ProxyType::Socks5 => "socks5"@,
        ProxyType::Socks4 => "socks4"@,
        ProxyType::Http => "http"@,
        _ => "https"@,
    }
}

/// The display form `scheme://ip:port`.
pub open spec fn spec_proxy_text(p: Proxy) -> Seq<char> {
    spec_type_text(p.proxy_type) + "://"@ + spec_ipv4_text(p.ip) + seq![':'] + spec_decimal(
        p.port as nat,
    )
}

/// The colon form `scheme:ip:port` that `parse` reads.
pub open spec fn spec_colon_text(p: Proxy) -> Seq<char> {
    spec_type_text(p.proxy_type) + seq![':'] + spec_ipv4_text(p.ip) + seq![':'] + spec_decimal(
        p.port as nat,
    )
}

impl ProxyType {
    /// The scheme the type is written with (what `Display` writes).
    pub fn to_string(&self) -> (res: String)
        ensures
            res@ == spec_type_text(*self),
    {
        match self {
            ProxyType::Socks5 => String::from_str("socks5"),
            ProxyType::Socks4 => String::from_str("socks4"),
            ProxyType::Http => String::from_str("http"),
            _ => String::from_str("https"),
        }
    }
}

impl ProxyParseError {
    /// The error's message: `invalid format` for a missing piece, else the
    /// standard messages for a bad address or port.
    pub fn message(&self) -> (res: String)
        ensures
            res@ == match *self {
                ProxyParseError::MissingAddress | ProxyParseError::MissingPort => "invalid format"@,
                ProxyParseError::InvalidAddress => "invalid IPv4 address syntax"@,
                ProxyParseError::InvalidPort(IntParseError::Empty) =>
                    "cannot parse integer from empty string"@,
                ProxyParseError::InvalidPort(IntParseError::InvalidDigit) =>
                    "invalid digit found in string"@,
                ProxyParseError::InvalidPort(IntParseError::PosOverflow) =>
                    "number too large to fit in target type"@,
            },
    {
        match self {
            ProxyParseError::MissingAddress | ProxyParseError::MissingPort => String::from_str(
                "invalid format",
            ),
            ProxyParseError::InvalidAddress => String::from_str("invalid IPv4 address syntax"),
            ProxyParseError::InvalidPort(IntParseError::Empty) => String::from_str(
                "cannot parse integer from empty string",
            ),
            ProxyParseError::InvalidPort(IntParseError::InvalidDigit) => String::from_str(
                "invalid digit found in string",
            ),
            ProxyParseError::InvalidPort(IntParseError::PosOverflow) => String::from_str(
                "number too large to fit in target type",
            ),
        }
    }
}

/// The proxy type a scheme names.
pub fn scheme_type_of(s: &[char]) -> (res: ProxyType)
    ensures
        res == scheme_type(s@),
{
    if chars_eq(s, chars_of("http").as_slice()) {
        ProxyType::Http
    } else if chars_eq(s, chars_of("https").as_slice()) {
        ProxyType::Https
    } else if chars_eq(s, chars_of("socks4").as_slice()) {
        ProxyType::Socks4
    } else if chars_eq(s, chars_of("socks5").as_slice()) {
        ProxyType::Socks5
    } else {
        ProxyType::Unknown
    }
}

impl Proxy {
    /// Parses `scheme:ip:port` (the proxy's `FromStr`).
    pub fn parse(s: &str) -> (res: Result<Proxy, ProxyParseError>)
        ensures
            res == spec_parse_proxy(s@),
    {
        let chars = chars_of(s);
        let parts = split_chars(chars.as_slice(), ':');
        proof {
            assert(views(parts@).len() == parts@.len());
            crate::text::lemma_split_nonempty(s@, ':');
        }
        let proxy_type = scheme_type_of(parts[0].as_slice());
        proof {
            assert(views(parts@)[0] == parts@[0]@);
        }
        if parts.len() < 2 {
            return Err(ProxyParseError::MissingAddress);
        }
        proof {
            assert(views(parts@)[1] == parts@[1]@);
        }
        let ip = match parse_ipv4(parts[1].as_slice()) {
            Some(ip) => ip,
            None => return Err(ProxyParseError::InvalidAddress),
        };
        if parts.len() < 3 {
            return Err(ProxyParseError::MissingPort);
        }
        proof {
            assert(views(parts@)[2] == parts@[2]@);
        }
        match parse_unsigned(parts[2].as_slice(), 65535) {
            Err(e) => Err(ProxyParseError::InvalidPort(e)),
            Ok(port) => Ok(Proxy { proxy_type, ip, port: port as u16 }),
        }
    }

    /// The display form `scheme://ip:port` (what `Display` writes).
    pub fn to_string(&self) -> (res: String)
        ensures
            res@ == spec_proxy_text(*self),
    {
        let mut out = self.proxy_type.to_string();
        let sep = String::from_str("://");
        out.append(sep.as_str());
        push_ipv4(&mut out, &self.ip);
        push_char(&mut out, ':');
        push_decimal(&mut out, self.port as u64);
        proof {
            assert(out@ =~= spec_proxy_text(*self));
        }
        out
    }
}

impl ProxyType {
    /// The type's name: its variant's name in lower case.
    pub open spec fn spec_name(self) -> Seq<char> {
        match self {
            ProxyType::Socks5 => "socks5"@,
            ProxyType::Socks4 => "socks4"@,
            ProxyType::Https => "https"@,
            ProxyType::Http => "http"@,
            ProxyType::Unknown => "unknown"@,
        }
    }
}

/// A scheme names a known type exactly when it is that type's name; every
/// other scheme names `Unknown`.
pub proof fn lemma_scheme_names(s: Seq<char>, t: ProxyType)
    ensures
        t != ProxyType::Unknown ==> (scheme_type(s) == t <==> s == t.spec_name()),
        scheme_type(s) == ProxyType::Unknown <==> (forall|u: ProxyType|
            u != ProxyType::Unknown ==> s != #[trigger] u.spec_name()),
{
    reveal_strlit("http");
    reveal_strlit("https");
    reveal_strlit("socks4");
    reveal_strlit("socks5");
    reveal_strlit("unknown");
    assert("http"@.len() == 4);
    assert("https"@.len() == 5);
    assert("socks4"@[5] != "socks5"@[5]);
    if scheme_type(s) == ProxyType::Unknown {
        assert forall|u: ProxyType| u != ProxyType::Unknown implies s != #[trigger] u.spec_name() by {
            match u {
                ProxyType::Socks5 => {},
                ProxyType::Socks4 => {},
                ProxyType::Https => {},
                ProxyType::Http => {},
                ProxyType::Unknown => {},
            }
        }
    } else {
        let u = scheme_type(s);
        assert(s == u.spec_name());
    }
}

/// A proxy type is written with its own name; `Unknown` is written as the
/// name of `Https`.
pub proof fn lemma_type_text_is_name(t: ProxyType)
    ensures
        spec_type_text(t) == if t == ProxyType::Unknown {
            ProxyType::Https.spec_name()
        } else {
            t.spec_name()
        },
{
}

/// The type a proxy has after its scheme is written and read back: every type
/// but `Unknown` is kept; `Unknown` is written `https` and so reads as `Https`.
pub open spec fn reread_type(t: ProxyType) -> ProxyType {
    if t == ProxyType::Unknown {
        ProxyType::Https
    } else {
        t
    }
}

/// Reading back the colon form of a proxy gives the proxy, with its type as
/// `reread_type` says.
pub proof fn lemma_colon_text_parse(p: Proxy)
    ensures
        spec_parse_proxy(spec_colon_text(p)) == Ok::<Proxy, ProxyParseError>(
            Proxy { proxy_type: reread_type(p.proxy_type), ip: p.ip, port: p.port },
        ),
{
    reveal_strlit("http");
    reveal_strlit("https");
    reveal_strlit("socks4");
    reveal_strlit("socks5");
    let t = spec_type_text(p.proxy_type);
    let a = spec_ipv4_text(p.ip);
    let d = spec_decimal(p.port as nat);
    crate::net::lemma_decimal_facts(p.ip.a as nat);
    crate::net::lemma_decimal_facts(p.ip.b as nat);
    crate::net::lemma_decimal_facts(p.ip.c as nat);
    crate::net::lemma_decimal_facts(p.ip.d as nat);
    crate::net::lemma_decimal_facts(p.port as nat);
    assert(!t.contains(':')) by {
        if t.contains(':') {
            let k = choose|k: int| 0 <= k < t.len() && t[k] == ':';
        }
    }
    assert(!a.contains(':')) by {
        if a.contains(':') {
            let k = choose|k: int| 0 <= k < a.len() && a[k] == ':';
            let d0 = spec_decimal(p.ip.a as nat);
            let d1 = spec_decimal(p.ip.b as nat);
            let d2 = spec_decimal(p.ip.c as nat);
            let d3 = spec_decimal(p.ip.d as nat);
            if k < d0.len() {
                assert(d0[k] == ':');
            } else if k == d0.len() {
            } else if k < d0.len() + 1 + d1.len() {
                assert(d1[k - d0.len() - 1] == ':');
            } else if k == d0.len() + 1 + d1.len() {
            } else if k < d0.len() + 1 + d1.len() + 1 + d2.len() {
                assert(d2[k - d0.len() - 1 - d1.len() - 1] == ':');
            } else if k == d0.len() + 1 + d1.len() + 1 + d2.len() {
            } else {
                assert(d3[k - d0.len() - 1 - d1.len() - 1 - d2.len() - 1] == ':');
            }
        }
    }
    let rest = a + seq![':'] + d;
    assert(spec_colon_text(p) =~= t + seq![':'] + rest);
    crate::text::lemma_split_no_sep(d, ':');
    crate::text::lemma_split_concat(a, d, ':');
    crate::text::lemma_split_concat(t, rest, ':');
    let parts = spec_split(spec_colon_text(p), ':');
    assert(parts =~= seq![t, a, d]);
    crate::net::lemma_ipv4_text_parse(p.ip);
    crate::digits::lemma_parse_decimal(p.port as nat, 65535);
    assert(scheme_type(t) == reread_type(p.proxy_type)) by {
        assert("http"@.len() == 4);
        assert("https"@.len() == 5);
        assert("socks4"@.len() == 6);
        assert("socks5"@.len() == 6);
        assert("socks4"@[5] != "socks5"@[5]);
    }
}

impl std::str::FromStr for Proxy {
    type Err = ProxyParseError;

    fn from_str(s: &str) -> (res: Result<Proxy, ProxyParseError>)
        ensures
            res == spec_parse_proxy(s@),
    {
        Proxy::parse(s)
    }
}

} // verus!
