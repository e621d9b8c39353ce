use vstd::prelude::*;
use crate::common::time::Duration;
use crate::net::SocketAddr;
use crate::text::{chars_eq, chars_of, lowercase, to_lowercase};

verus! {

/// Supported proxy types
#[derive(Debug, Clone, Copy, PartialEq, Eq, Hash, Structural)]
pub enum ProxyType {
    Http,
    Https,
    Socks4,
    Socks5,
    Transparent,
    Ssl,
    Imap,
    Smtp,
    Pop3,
}

impl ProxyType {
    /// The type's name: its variant's name in lower case.
    pub open spec fn spec_name(self) -> Seq<char> {
        match self {
            ProxyType::Http => "http"@,
            ProxyType::Https => "https"@,
            ProxyType::Socks4 => "socks4"@,
            ProxyType::Socks5 => "socks5"@,
            ProxyType::Transparent => "transparent"@,
            ProxyType::Ssl => "ssl"@,
            ProxyType::Imap => "imap"@,
            ProxyType::Smtp => "smtp"@,
            ProxyType::Pop3 => "pop3"@,
        }
    }
}

/// The names of two different types differ.
pub proof fn lemma_type_names_distinct(t1: ProxyType, t2: ProxyType)
    ensures
        t1.spec_name() == t2.spec_name() ==> t1 == t2,
{
    reveal_strlit("http");
    reveal_strlit("https");
    reveal_strlit("socks4");
    reveal_strlit("socks5");
    reveal_strlit("transparent");
    reveal_strlit("ssl");
    reveal_strlit("imap");
    reveal_strlit("smtp");
    reveal_strlit("pop3");
    if t1.spec_name() == t2.spec_name() && t1 != t2 {
        let a = t1.spec_name();
        let b = t2.spec_name();
        assert(a.len() == b.len());
        assert(a[0] == b[0]);
        if a.len() > 1 {
            assert(a[1] == b[1]);
        }
        if a.len() > 3 {
            assert(a[3] == b[3]);
        }
        if a.len() > 5 {
            assert(a[5] == b[5]);
        }
    }
}

/// A lower-case name stands for a proxy type exactly when it is that type's
/// name: each of the nine names stands for the type of the same name, and no
/// other text stands for any type.
pub proof fn lemma_type_from_name(name: Seq<char>, t: ProxyType)
    ensures
        spec_type_from_name(name) == Some(t) <==> name == t.spec_name(),
        spec_type_from_name(name) is None <==> (forall|u: ProxyType| name != #[trigger] u.spec_name()),
{
    lemma_type_names_distinct(t, ProxyType::Http);
    lemma_type_names_distinct(t, ProxyType::Https);
    lemma_type_names_distinct(t, ProxyType::Socks4);
    lemma_type_names_distinct(t, ProxyType::Socks5);
    lemma_type_names_distinct(t, ProxyType::Transparent);
    lemma_type_names_distinct(t, ProxyType::Ssl);
    lemma_type_names_distinct(t, ProxyType::Imap);
    lemma_type_names_distinct(t, ProxyType::Smtp);
    lemma_type_names_distinct(t, ProxyType::Pop3);
    if spec_type_from_name(name) is None {
        assert forall|u: ProxyType| name != #[trigger] u.spec_name() by {
            match u {
                ProxyType::Http => {},
                ProxyType::Https => {},
                ProxyType::Socks4 => {},
                ProxyType::Socks5 => {},
                ProxyType::Transparent => {},
                ProxyType::Ssl => {},
                ProxyType::Imap => {},
                ProxyType::Smtp => {},
                ProxyType::Pop3 => {},
            }
        }
    } else {
        let u = spec_type_from_name(name)->Some_0;
        assert(name == u.spec_name());
    }
}

/// The proxy type a lower-case name stands for, if any.
pub open spec fn spec_type_from_name(name: Seq<char>) -> Option<ProxyType> {
    if name == "http"@ {
        Some(ProxyType::Http)
    } else if name == "https"@ {
        Some(ProxyType::Https)
    } else if name == "socks4"@ {
        Some(ProxyType::Socks4)
    } else if name == "socks5"@ {
        Some(ProxyType::Socks5)
    } else if name == "transparent"@ {
        Some(ProxyType::Transparent)
    } else if name == "ssl"@ {
        Some(ProxyType::Ssl)
    } else if name == "imap"@ {
        Some(ProxyType::Imap)
    } else if name == "smtp"@ {
        Some(ProxyType::Smtp)
    } else if name == "pop3"@ {
        Some(ProxyType::Pop3)
    } else {
        None
    }
}

/// The proxy type a lower-case name stands for.
pub fn proxy_type_from_lowercase(name: &str) -> (res: Option<ProxyType>)
    ensures
        res == spec_type_from_name(name@),
{
    let n = chars_of(name);
    let s = n.as_slice();
    if chars_eq(s, chars_of("http").as_slice()) {
        Some(ProxyType::Http)
    } else if chars_eq(s, chars_of("https").as_slice()) {
        Some(ProxyType::Https)
    } else if chars_eq(s, chars_of("socks4").as_slice()) {
        Some(ProxyType::Socks4)
    } else if chars_eq(s, chars_of("socks5").as_slice()) {
        Some(ProxyType::Socks5)
    } else if chars_eq(s, chars_of("transparent").as_slice()) {
        Some(ProxyType::Transparent)
    } else if chars_eq(s, chars_of("ssl").as_slice()) {
        Some(ProxyType::Ssl)
    } else if chars_eq(s, chars_of("imap").as_slice()) {
        Some(ProxyType::Imap)
    } else if chars_eq(s, chars_of("smtp").as_slice()) {
        Some(ProxyType::Smtp)
    } else if chars_eq(s, chars_of("pop3").as_slice()) {
        Some(ProxyType::Pop3)
    } else {
        None
    }
}

/// The proxy type a name stands for in any case: the name is put in lower
/// case first.
pub fn parse_proxy_type(name: &str) -> (res: Option<ProxyType>)
    ensures
        res == spec_type_from_name(lowercase(name@)),
{
    let lower = to_lowercase(name);
    proxy_type_from_lowercase(lower.as_str())
}

/// Proxy connection details
#[derive(Debug, Clone)]
pub struct ProxyConfig {
    pub address: SocketAddr,
    pub proxy_type: ProxyType,
    pub username: Option<String>,
    pub password: Option<String>,
    pub timeout: Duration,
}

impl ProxyConfig {
    /// A proxy at `address` of type `proxy_type`, without credentials, with a
    /// timeout of ten seconds.
    pub fn new(address: SocketAddr, proxy_type: ProxyType) -> (res: Self)
        ensures
            res.address == address,
            res.proxy_type == proxy_type,
            res.username is None,
            res.password is None,
            res.timeout.spec_secs() == 10,
            res.timeout.spec_nanos() == 0,
    {
        Self {
            address,
            proxy_type,
            username: None,
            password: None,
            timeout: Duration::from_secs(10),
        }
    }

    /// The same proxy with the given credentials.
    pub fn with_auth(self, username: String, password: String) -> (res: Self)
        ensures
            res.username == Some(username),
            res.password == Some(password),
            res.address == self.address,
            res.proxy_type == self.proxy_type,
            res.timeout == self.timeout,
    {
        let mut s = self;
        s.username = Some(username);
        s.password = Some(password);
        s
    }

    /// The same proxy with the given timeout.
    pub fn with_timeout(self, timeout: Duration) -> (res: Self)
        ensures
            res.timeout == timeout,
            res.address == self.address,
            res.proxy_type == self.proxy_type,
            res.username == self.username,
            res.password == self.password,
    {
        let mut s = self;
        s.timeout = timeout;
        s
    }
}

} // verus!
