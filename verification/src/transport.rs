//! The HTTP client crate's items that the library calls, with what is assumed
//! of them.

use vstd::prelude::*;
use reqwest::Proxy as ClientProxy;

verus! {

/// The HTTP client's error type; opaque here.
#[verifier::external_type_specification]
#[verifier::external_body]
pub struct ExReqwestError(reqwest::Error);

/// The HTTP client's proxy type; opaque here.
#[verifier::external_type_specification]
#[verifier::external_body]
pub struct ExReqwestProxy(ClientProxy);

/// Whether `reqwest::Proxy::all` accepts `url` as a proxy URL. That depends on
/// the URL parser alone, so on the text alone.
pub uninterp spec fn proxy_url_accepted(url: Seq<char>) -> bool;

/// The characters `http://`.
pub open spec fn http_prefix() -> Seq<char> {
    seq!['h', 't', 't', 'p', ':', '/', '/']
}

/// The characters `https://`.
pub open spec fn https_prefix() -> Seq<char> {
    seq!['h', 't', 't', 'p', 's', ':', '/', '/']
}

/// Whether `url` begins with `http://` or `https://`.
pub open spec fn has_http_scheme(url: Seq<char>) -> bool {
    ||| url.len() >= 7 && url.take(7) == http_prefix()
    ||| url.len() >= 8 && url.take(8) == https_prefix()
}

/// A proxy of the HTTP client that intercepts all traffic, together with the
/// URL it was made from.
pub struct ProxyEndpoint {
    proxy: ClientProxy,
    url: String,
    auth: Option<(String, String)>,
}

impl ProxyEndpoint {
    /// The URL the proxy was made from.
    pub closed spec fn spec_url(&self) -> Seq<char> {
        self.url@
    }

    /// The user name and password set on the proxy, if any.
    pub closed spec fn spec_auth(&self) -> Option<(Seq<char>, Seq<char>)> {
        match self.auth {
            Some((u, p)) => Some((u@, p@)),
            None => None,
        }
    }

    /// The HTTP client's proxy that was made from the URL.
    pub closed spec fn spec_proxy(&self) -> ClientProxy {
        self.proxy
    }

    /// The HTTP client's proxy.
    pub fn into_proxy(self) -> (res: ClientProxy)
        ensures
            res == self.spec_proxy(),
    {
        self.proxy
    }
}

/// `reqwest::Proxy::all(url)`: a proxy for all traffic through `url`. It
/// succeeds exactly when the URL is accepted (`proxy_url_accepted`), and the
/// proxy then keeps `url` and has no credentials. Which error comes back
/// otherwise is not stated.
#[verifier::external_body]
pub fn proxy_all(url: &str) -> (res: Result<ProxyEndpoint, reqwest::Error>)
    ensures
        res is Ok == proxy_url_accepted(url@),
        res matches Ok(p) ==> p.spec_url() == url@ && p.spec_auth() is None,
{
    match ClientProxy::all(url) {
        Ok(proxy) => Ok(ProxyEndpoint { proxy, url: url.to_string(), auth: None }),
        Err(e) => Err(e),
    }
}

/// `reqwest::Proxy::basic_auth`: the same proxy with `username` and `password`
/// set on its URL. It panics when the URL cannot hold credentials (a file URL
/// or one with an empty host), which an accepted `http://` or `https://` URL
/// never is. The proxy then carries exactly these credentials (they are set
/// as the user name and password of its URL, from which the client sends
/// Basic authorization to the proxy).
#[verifier::external_body]
pub fn proxy_basic_auth(p: ProxyEndpoint, username: &str, password: &str) -> (res: ProxyEndpoint)
    requires
        proxy_url_accepted(p.spec_url()),
        has_http_scheme(p.spec_url()),
    ensures
        res.spec_url() == p.spec_url(),
        res.spec_auth() == Some((username@, password@)),
{
    ProxyEndpoint {
        proxy: p.proxy.basic_auth(username, password),
        url: p.url,
        auth: Some((username.to_string(), password.to_string())),
    }
}

/// What `reqwest::Error::is_timeout` answers for an error: whether one of its
/// causes is a timeout. It depends on the error value alone.
pub uninterp spec fn error_times_out(e: reqwest::Error) -> bool;

/// What `reqwest::Error::is_connect` answers for an error: whether one of its
/// causes is a failure to connect. It depends on the error value alone.
pub uninterp spec fn error_connects(e: reqwest::Error) -> bool;

/// The text `Display` writes for an error (its kind, and its URL if it has
/// one). It depends on the error value alone.
pub uninterp spec fn error_display(e: reqwest::Error) -> Seq<char>;

/// `reqwest::Error::is_timeout`: whether the error came from a timeout; the
/// answer is `error_times_out(*e)`.
#[verifier::external_body]
pub fn error_is_timeout(e: &reqwest::Error) -> (res: bool)
    ensures
        res == error_times_out(*e),
{
    e.is_timeout()
}

/// `reqwest::Error::is_connect`: whether the error came from connecting; the
/// answer is `error_connects(*e)`.
#[verifier::external_body]
pub fn error_is_connect(e: &reqwest::Error) -> (res: bool)
    ensures
        res == error_connects(*e),
{
    e.is_connect()
}

/// The error's text (its `Display`), `error_display(*e)`.
#[verifier::external_body]
pub fn error_text(e: &reqwest::Error) -> (res: String)
    ensures
        res@ == error_display(*e),
{
    e.to_string()
}

} // verus!
