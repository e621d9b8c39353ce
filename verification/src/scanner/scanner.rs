use vstd::prelude::*;
use crate::common::config::{ScannerConfig, is_default_config};
use crate::common::errors::{ProxyError, is_message_of};
use crate::common::time::Duration;
use crate::common::types::{ProxyConfig, ProxyType};
use crate::net::SocketAddr;
use crate::protocols::ProxyChecker;
use crate::protocols::http::{HttpProxyChecker, is_http_type, spec_proxy_url};

verus! {

/// What scanning one proxy found.
#[derive(Debug, Clone)]
pub struct ScanResult {
    pub address: SocketAddr,
    pub proxy_type: ProxyType,
    pub is_working: bool,
    pub latency: Option<Duration>,
    pub error: Option<String>,
    pub anonymity_level: Option<AnonymityLevel>,
}

#[derive(Debug, Clone, Copy, PartialEq, Eq, Structural)]
pub enum AnonymityLevel {
    Transparent,
    Anonymous,
    Elite,
}

/// Whether a result is consistent: a working proxy has a latency and an
/// anonymity level and no error; a failed one has an error and neither of the
/// others.
pub open spec fn is_consistent(r: ScanResult) -> bool {
    &&& r.is_working == r.error is None
    &&& r.is_working == r.latency is Some
    &&& r.is_working == r.anonymity_level is Some
}

impl ScanResult {
    /// The result of checking `proxy`, given how the check ended and how long
    /// it took.
    pub fn from_check(proxy: ProxyConfig, outcome: Result<(), ProxyError>, latency: Duration) -> (res:
        ScanResult)
        ensures
            res.address == proxy.address,
            res.proxy_type == proxy.proxy_type,
            res.is_working == outcome is Ok,
            outcome is Ok ==> res.latency == Some(latency),
            outcome is Ok ==> res.anonymity_level == Some(AnonymityLevel::Anonymous),
            outcome is Ok ==> res.error is None,
            outcome is Err ==> res.latency is None && res.anonymity_level is None,
            outcome is Err ==> res.error is Some && is_message_of(
                outcome->Err_0,
                res.error->Some_0@,
            ),
            is_consistent(res),
    {
        match outcome {
            Ok(_) => ScanResult {
                address: proxy.address,
                proxy_type: proxy.proxy_type,
                is_working: true,
                latency: Some(latency),
                error: None,
                anonymity_level: Some(AnonymityLevel::Anonymous),
            },
            Err(err) => ScanResult {
                address: proxy.address,
                proxy_type: proxy.proxy_type,
                is_working: false,
                latency: None,
                error: Some(err.message()),
                anonymity_level: None,
            },
        }
    }
}

/// The URL a scanner's HTTP checker fetches: the configured one, else
/// `http://google.com`.
pub open spec fn checker_url(c: ScannerConfig) -> Seq<char> {
    match c.verify_url {
        Some(u) => u@,
        None => "http://google.com"@,
    }
}

/// Whether a scanner with this configuration gets the HTTP checker: when it
/// checks all types or prefers HTTP or HTTPS.
pub open spec fn wants_http_checker(c: ScannerConfig) -> bool {
    ||| c.check_all_types
    ||| c.preferred_types@.contains(ProxyType::Http)
    ||| c.preferred_types@.contains(ProxyType::Https)
}

/// The verify URLs of the checkers a scanner with this configuration has.
pub open spec fn checkers_for(c: ScannerConfig) -> Seq<Seq<char>> {
    if wants_http_checker(c) {
        seq![checker_url(c)]
    } else {
        Seq::<Seq<char>>::empty()
    }
}

/// Whether some checker of a scanner handles proxies of type `t` (every
/// checker a scanner has is an HTTP checker).
pub open spec fn routes(checkers: Seq<Seq<char>>, t: ProxyType) -> bool {
    checkers.len() > 0 && is_http_type(t)
}

pub struct Scanner {
    config: ScannerConfig,
    checkers: Vec<HttpProxyChecker>,
}

pub struct ScannerBuilder {
    config: ScannerConfig,
}

impl ScannerBuilder {
    pub closed spec fn spec_config(&self) -> ScannerConfig {
        self.config
    }

    /// A builder holding the default configuration.
    pub fn new() -> (res: Self)
        ensures
            is_default_config(res.spec_config()),
    {
        Self { config: ScannerConfig::default() }
    }

    pub fn with_concurrency(self, concurrency: usize) -> (res: Self)
        ensures
            res.spec_config() == (ScannerConfig { concurrency, ..self.spec_config() }),
    {
        let mut s = self;
        s.config.concurrency = concurrency;
        s
    }

    pub fn with_timeout(self, timeout: Duration) -> (res: Self)
        ensures
            res.spec_config() == (ScannerConfig { timeout, ..self.spec_config() }),
    {
        let mut s = self;
        s.config.timeout = timeout;
        s
    }

    pub fn with_retry_count(self, retry_count: usize) -> (res: Self)
        ensures
            res.spec_config() == (ScannerConfig { retry_count, ..self.spec_config() }),
    {
        let mut s = self;
        s.config.retry_count = retry_count;
        s
    }

    pub fn check_all_types(self, check_all: bool) -> (res: Self)
        ensures
            res.spec_config() == (ScannerConfig { check_all_types: check_all, ..self.spec_config() }),
    {
        let mut s = self;
        s.config.check_all_types = check_all;
        s
    }

    pub fn with_preferred_types(self, types: Vec<ProxyType>) -> (res: Self)
        ensures
            res.spec_config() == (ScannerConfig { preferred_types: types, ..self.spec_config() }),
    {
        let mut s = self;
        s.config.preferred_types = types;
        s
    }

    pub fn with_verify_url(self, url: Option<String>) -> (res: Self)
        ensures
            res.spec_config() == (ScannerConfig { verify_url: url, ..self.spec_config() }),
    {
        let mut s = self;
        s.config.verify_url = url;
        s
    }

    /// A scanner with the configuration built so far.
    pub fn build(self) -> (res: Scanner)
        ensures
            res.spec_config() == self.spec_config(),
            res.spec_checkers() == checkers_for(self.spec_config()),
    {
        Scanner::new(self.config)
    }
}

/// Whether `types` holds `t`.
fn contains_type(types: &Vec<ProxyType>, t: ProxyType) -> (res: bool)
    ensures
        res == types@.contains(t),
{
    let mut i: usize = 0;
    while i < types.len()
        invariant
            i <= types.len(),
            forall|j: int| 0 <= j < i ==> types@[j] != t,
        decreases types.len() - i,
    {
        if types[i] == t {
            return true;
        }
        i += 1;
    }
    false
}

impl Scanner {
    pub closed spec fn spec_config(&self) -> ScannerConfig {
        self.config
    }

    /// The verify URLs of the scanner's checkers, in order.
    pub closed spec fn spec_checkers(&self) -> Seq<Seq<char>> {
        self.checkers@.map_values(|c: HttpProxyChecker| c.spec_verify_url())
    }

    /// A scanner for `config`, with the HTTP checker when the configuration
    /// checks all types or prefers HTTP or HTTPS.
    pub fn new(config: ScannerConfig) -> (res: Self)
        ensures
            res.spec_config() == config,
            res.spec_checkers() == checkers_for(config),
    {
        let mut checkers: Vec<HttpProxyChecker> = Vec::new();
        let verify_url = match &config.verify_url {
            Some(u) => u.clone(),
            None => String::from_str("http://google.com"),
        };
        if config.check_all_types || contains_type(&config.preferred_types, ProxyType::Http)
            || contains_type(&config.preferred_types, ProxyType::Https) {
            let http_checker = HttpProxyChecker::new(verify_url);
            checkers.push(http_checker);
        }
        let res = Self { config, checkers };
        proof {
            assert(res.spec_checkers() =~= checkers_for(config));
        }
        res
    }

    pub fn builder() -> (res: ScannerBuilder)
        ensures
            is_default_config(res.spec_config()),
    {
        ScannerBuilder::new()
    }

    /// The configuration.
    pub fn config(&self) -> (res: &ScannerConfig)
        ensures
            *res == self.spec_config(),
    {
        &self.config
    }

    /// The first checker that handles `proxy_type`, or `UnsupportedProxyType`
    /// when none does.
    pub fn checker_for(&self, proxy_type: ProxyType) -> (res: Result<&HttpProxyChecker, ProxyError>)
        ensures
            res is Ok <==> routes(self.spec_checkers(), proxy_type),
            res is Err ==> res->Err_0 is UnsupportedProxyType,
            res is Ok ==> res->Ok_0.spec_verify_url() == self.spec_checkers()[0],
    {
        let mut i: usize = 0;
        while i < self.checkers.len()
            invariant
                i <= self.checkers@.len(),
                i > 0 ==> !is_http_type(proxy_type),
            decreases self.checkers@.len() - i,
        {
            if self.checkers[i].supports_type(proxy_type) {
                proof {
                    assert(i == 0);
                    assert(self.spec_checkers()[0] == self.checkers@[0].spec_verify_url());
                }
                return Ok(&self.checkers[i]);
            }
            i += 1;
        }
        Err(ProxyError::UnsupportedProxyType)
    }
}

/// A scanner gets the HTTP checker exactly when it checks all types or one of
/// its preferred types, at any position, is HTTP or HTTPS.
pub proof fn lemma_http_checker_when(c: ScannerConfig)
    ensures
        wants_http_checker(c) <==> (c.check_all_types || exists|i: int|
            0 <= i < c.preferred_types@.len() && (#[trigger] c.preferred_types@[i] == ProxyType::Http
                || c.preferred_types@[i] == ProxyType::Https)),
        checkers_for(c).len() == if wants_http_checker(c) {
            1int
        } else {
            0int
        },
{
    let pt = c.preferred_types@;
    if pt.contains(ProxyType::Http) {
        let i = choose|i: int| 0 <= i < pt.len() && pt[i] == ProxyType::Http;
        assert(pt[i] == ProxyType::Http);
    }
    if pt.contains(ProxyType::Https) {
        let i = choose|i: int| 0 <= i < pt.len() && pt[i] == ProxyType::Https;
        assert(pt[i] == ProxyType::Https);
    }
    if exists|i: int|
        0 <= i < pt.len() && (#[trigger] pt[i] == ProxyType::Http || pt[i] == ProxyType::Https) {
        let i = choose|i: int|
            0 <= i < pt.len() && (#[trigger] pt[i] == ProxyType::Http || pt[i] == ProxyType::Https);
        assert(pt.contains(pt[i]));
    }
}

/// The checkers a scanner gets do not depend on the order, or the repetition,
/// of its preferred types.
pub proof fn lemma_checkers_ignore_order(c1: ScannerConfig, c2: ScannerConfig)
    requires
        c1.check_all_types == c2.check_all_types,
        c1.verify_url == c2.verify_url,
        c1.preferred_types@.to_set() == c2.preferred_types@.to_set(),
    ensures
        checkers_for(c1) == checkers_for(c2),
{
    let s1 = c1.preferred_types@;
    let s2 = c2.preferred_types@;
    assert(s1.contains(ProxyType::Http) == s1.to_set().contains(ProxyType::Http));
    assert(s2.contains(ProxyType::Http) == s2.to_set().contains(ProxyType::Http));
    assert(s1.contains(ProxyType::Https) == s1.to_set().contains(ProxyType::Https));
    assert(s2.contains(ProxyType::Https) == s2.to_set().contains(ProxyType::Https));
}

/// A proxy that some checker of a scanner handles has an HTTP proxy URL.
pub proof fn lemma_routed_types_have_url(checkers: Seq<Seq<char>>, p: ProxyConfig)
    requires
        routes(checkers, p.proxy_type),
    ensures
        spec_proxy_url(p) is Some,
{
}

/// A scanner handles a proxy type exactly when its configuration gives it the
/// HTTP checker and the type is HTTP or HTTPS.
pub proof fn lemma_scanner_routes(c: ScannerConfig, t: ProxyType)
    ensures
        routes(checkers_for(c), t) <==> wants_http_checker(c) && is_http_type(t),
{
}

} // verus!
