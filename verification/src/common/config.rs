use vstd::prelude::*;
use crate::common::time::Duration;
use crate::common::types::ProxyType;

verus! {

/// What a scanner is set up with.
#[derive(Debug, Clone)]
pub struct ScannerConfig {
    pub concurrency: usize,
    pub timeout: Duration,
    pub retry_count: usize,
    pub check_all_types: bool,
    pub preferred_types: Vec<ProxyType>,
    pub verify_url: Option<String>,
}

/// Whether `c` holds the default settings.
pub open spec fn is_default_config(c: ScannerConfig) -> bool {
    &&& c.concurrency == 100
    &&& c.timeout.spec_secs() == 10
    &&& c.timeout.spec_nanos() == 0
    &&& c.retry_count == 2
    &&& !c.check_all_types
    &&& c.preferred_types@ == seq![ProxyType::Http, ProxyType::Socks5]
    &&& c.verify_url matches Some(u) && u@ == "http://www.google.com"@
}

impl Default for ScannerConfig {
    /// A hundred concurrent checks, a ten second timeout, two retries, HTTP and
    /// SOCKS5 preferred, verified against `http://www.google.com`.
    fn default() -> (res: Self)
        ensures
            is_default_config(res),
    {
        let mut preferred_types: Vec<ProxyType> = Vec::new();
        preferred_types.push(ProxyType::Http);
        preferred_types.push(ProxyType::Socks5);
        proof {
            assert(preferred_types@ =~= seq![ProxyType::Http, ProxyType::Socks5]);
        }
        Self {
            concurrency: 100,
            timeout: Duration::from_secs(10),
            retry_count: 2,
            check_all_types: false,
            preferred_types,
            verify_url: Some(String::from_str("http://www.google.com")),
        }
    }
}

} // verus!
