pub mod http;

use vstd::prelude::*;
use crate::common::types::ProxyType;

pub use self::http::HttpProxyChecker;

verus! {

/// A checker for some kinds of proxy. The check itself talks to the network
/// and is run by the caller; a checker says which proxy types it handles.
pub trait ProxyChecker {
    fn supports_type(&self, proxy_type: ProxyType) -> bool;
}

} // verus!
