use vstd::prelude::*;
use crate::transport::{error_display, error_text};

verus! {

/// Why a proxy check failed.
#[derive(Debug)]
pub enum ProxyError {
    ConnectionFailed(reqwest::Error),
    AuthenticationFailed,
    Timeout,
    ProtocolError(String),
    InvalidResponse(String),
    UnsupportedProxyType,
}

/// The characters `Connection failed: `.
pub open spec fn connection_failed_prefix() -> Seq<char> {
    "Connection failed: "@
}

/// Whether `m` is the message of `e`: the fixed text of each kind, followed by
/// the detail where the kind carries one. For a failed connection the detail
/// is the client error's own text.
pub open spec fn is_message_of(e: ProxyError, m: Seq<char>) -> bool {
    match e {
        ProxyError::ConnectionFailed(err) => m == connection_failed_prefix() + error_display(err),
        ProxyError::AuthenticationFailed => m == "Authentication failed"@,
        ProxyError::Timeout => m == "Connection timed out"@,
        ProxyError::ProtocolError(msg) => m == "Protocol error: "@ + msg@,
        ProxyError::InvalidResponse(msg) => m == "Invalid response: "@ + msg@,
        ProxyError::UnsupportedProxyType => m == "Unsupported proxy type"@,
    }
}

impl ProxyError {
    /// The error's message (what `Display` writes for it).
    pub fn message(&self) -> (res: String)
        ensures
            is_message_of(*self, res@),
    {
        match self {
            ProxyError::ConnectionFailed(err) => {
                let mut m = String::from_str("Connection failed: ");
                let detail = error_text(err);
                m.append(detail.as_str());
                m
            },
            ProxyError::AuthenticationFailed => String::from_str("Authentication failed"),
            ProxyError::Timeout => String::from_str("Connection timed out"),
            ProxyError::ProtocolError(msg) => {
                let mut m = String::from_str("Protocol error: ");
                m.append(msg.as_str());
                m
            },
            ProxyError::InvalidResponse(msg) => {
                let mut m = String::from_str("Invalid response: ");
                m.append(msg.as_str());
                m
            },
            ProxyError::UnsupportedProxyType => String::from_str("Unsupported proxy type"),
        }
    }

    /// The underlying client error, for a failed connection.
    pub fn source(&self) -> (res: Option<&reqwest::Error>)
        ensures
            match *self {
                ProxyError::ConnectionFailed(e) => res == Some(&e),
                _ => res is None,
            },
    {
        match self {
            ProxyError::ConnectionFailed(err) => Some(err),
            _ => None,
        }
    }
}

} // verus!
