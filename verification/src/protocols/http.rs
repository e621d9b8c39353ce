use vstd::prelude::*;
use crate::common::errors::ProxyError;
use crate::common::time::Duration;
use crate::common::types::{ProxyConfig, ProxyType};
use crate::net::{push_socket_addr, spec_socket_text};
use crate::protocols::ProxyChecker;
use crate::transport::{
    ProxyEndpoint, error_connects, error_display, error_is_connect, error_times_out, error_is_timeout, error_text, has_http_scheme, http_prefix,
    https_prefix, proxy_all, proxy_basic_auth, proxy_url_accepted,
};

verus! {

/// Checks HTTP and HTTPS proxies by fetching a URL through them.
pub struct HttpProxyChecker {
    verify_url: String,
}

/// Whether a proxy of this type is checked over HTTP.
pub open spec fn is_http_type(t: ProxyType) -> bool {
    t == ProxyType::Http || t == ProxyType::Https
}

/// The URL of the proxy itself: `http://` or `https://` and its address, for
/// the two HTTP types; none for the others.
pub open spec fn spec_proxy_url(p: ProxyConfig) -> Option<Seq<char>> {
    match p.proxy_type {
        ProxyType::Http => Some(http_prefix() + spec_socket_text(p.address)),
        ProxyType::Https => Some(https_prefix() + spec_socket_text(p.address)),
        _ => None,
    }
}

/// The HTTP checker handles exactly the proxies whose URL it can write: a type
/// is checked over HTTP when, and only when, a proxy of that type has an
/// `http://` or `https://` URL.
pub proof fn lemma_http_types_have_url(p: ProxyConfig)
    ensures
        is_http_type(p.proxy_type) <==> spec_proxy_url(p) is Some,
{
}

/// Whether the proxy has both a user name and a password.
pub open spec fn has_credentials(p: ProxyConfig) -> bool {
    p.username is Some && p.password is Some
}

/// What a check through one proxy needs: the client proxies to install in
/// order (the client uses the first that applies: the one with the user name
/// and password when the proxy has both, then the plain one), the
/// timeout, and the URL to fetch.
pub struct CheckPlan {
    pub proxy_url: String,
    pub proxies: Vec<ProxyEndpoint>,
    pub timeout: Duration,
    pub verify_url: String,
}

/// The URL of the proxy, or `UnsupportedProxyType` for a type that is not HTTP.
pub fn proxy_url(proxy: &ProxyConfig) -> (res: Result<String, ProxyError>)
    ensures
        match spec_proxy_url(*proxy) {
            Some(u) => res matches Ok(s) && s@ == u,
            None => res matches Err(ProxyError::UnsupportedProxyType),
        },
{
    match proxy.proxy_type {
        ProxyType::Http => {
            let mut s = String::from_str("http://");
            proof {
                reveal_strlit("http://");
            }
            push_socket_addr(&mut s, &proxy.address);
            Ok(s)
        },
        ProxyType::Https => {
            let mut s = String::from_str("https://");
            proof {
                reveal_strlit("https://");
            }
            push_socket_addr(&mut s, &proxy.address);
            Ok(s)
        },
        _ => Err(ProxyError::UnsupportedProxyType),
    }
}

/// The error for a request that failed: a timeout, a failed connection
/// (keeping the client error), or else a protocol error with `text`.
pub fn classify_failure(timed_out: bool, connect: bool, err: reqwest::Error, text: String) -> (res:
    ProxyError)
    ensures
        timed_out ==> res == ProxyError::Timeout,
        !timed_out && connect ==> res == ProxyError::ConnectionFailed(err),
        !timed_out && !connect ==> res == ProxyError::ProtocolError(text),
{
    if timed_out {
        ProxyError::Timeout
    } else if connect {
        ProxyError::ConnectionFailed(err)
    } else {
        ProxyError::ProtocolError(text)
    }
}

/// The error for a request that failed with the client error `err`, as
/// `classify_failure` decides it from what the client says of the error.
pub fn request_failure(err: reqwest::Error) -> (res: ProxyError)
    ensures
        error_times_out(err) ==> res == ProxyError::Timeout,
        !error_times_out(err) && error_connects(err) ==> res == ProxyError::ConnectionFailed(err),
        !error_times_out(err) && !error_connects(err) ==> res is ProtocolError && res->ProtocolError_0@
            == error_display(err),
{
    let timed_out = error_is_timeout(&err);
    let connect = error_is_connect(&err);
    let text = error_text(&err);
    classify_failure(timed_out, connect, err, text)
}

impl HttpProxyChecker {
    pub closed spec fn spec_verify_url(&self) -> Seq<char> {
        self.verify_url@
    }

    /// A checker that fetches `verify_url`.
    pub fn new(verify_url: String) -> (res: Self)
        ensures
            res.spec_verify_url() == verify_url@,
    {
        Self { verify_url }
    }

    /// The URL that checks fetch.
    pub fn verify_url(&self) -> (res: &String)
        ensures
            res@ == self.spec_verify_url(),
    {
        &self.verify_url
    }

    /// Everything up to the request itself: the proxy URL, the client proxies
    /// and what to fetch. A type other than HTTP or HTTPS gives
    /// `UnsupportedProxyType`; a proxy URL that the client refuses gives
    /// `ConnectionFailed` with its error.
    pub fn prepare(&self, proxy: &ProxyConfig) -> (res: Result<CheckPlan, ProxyError>)
        ensures
            spec_proxy_url(*proxy) is None <==> res matches Err(ProxyError::UnsupportedProxyType),
            spec_proxy_url(*proxy) matches Some(u) ==> {
                &&& res is Ok <==> proxy_url_accepted(u)
                &&& !proxy_url_accepted(u) ==> (res is Err && res->Err_0 is ConnectionFailed)
                &&& res is Ok ==> {
                    let plan = res->Ok_0;
                    &&& plan.proxy_url@ == u
                    &&& plan.timeout == proxy.timeout
                    &&& plan.verify_url@ == self.spec_verify_url()
                    &&& plan.proxies@.len() == if has_credentials(*proxy) {
                        2int
                    } else {
                        1int
                    }
                    &&& forall|i: int|
                        0 <= i < plan.proxies@.len() ==> #[trigger] plan.proxies@[i].spec_url()
                            == u
                    &&& has_credentials(*proxy) ==> plan.proxies@[0].spec_auth() == Some(
                        (proxy.username->Some_0@, proxy.password->Some_0@),
                    )
                    &&& plan.proxies@.last().spec_auth() is None
                }
            },
    {
        let url = match proxy_url(proxy) {
            Ok(u) => u,
            Err(e) => return Err(e),
        };
        let ghost u = url@;
        proof {
            assert(has_http_scheme(u)) by {
                if proxy.proxy_type == ProxyType::Http {
                    assert(u.take(7) =~= http_prefix());
                } else {
                    assert(u.take(8) =~= https_prefix());
                }
            }
        }
        let plain = match proxy_all(url.as_str()) {
            Ok(p) => p,
            Err(e) => return Err(ProxyError::ConnectionFailed(e)),
        };
        let mut proxies: Vec<ProxyEndpoint> = Vec::new();
        match (&proxy.username, &proxy.password) {
            (Some(username), Some(password)) => {
                let again = match proxy_all(url.as_str()) {
                    Ok(p) => p,
                    Err(e) => return Err(ProxyError::ConnectionFailed(e)),
                };
                let with_auth = proxy_basic_auth(again, username.as_str(), password.as_str());
                proxies.push(with_auth);
            },
            _ => {},
        }
        proxies.push(plain);
        let verify_url = self.verify_url.clone();
        Ok(CheckPlan { proxy_url: url, proxies, timeout: proxy.timeout, verify_url })
    }
}

impl ProxyChecker for HttpProxyChecker {
    fn supports_type(&self, proxy_type: ProxyType) -> (res: bool)
        ensures
            res == is_http_type(proxy_type),
    {
        match proxy_type {
            ProxyType::Http | ProxyType::Https => true,
            _ => false,
        }
    }
}

} // verus!
