//! Reading a list of proxies, one per line, in the form
//! `ip:port[:type[:username:password]]`.

use vstd::prelude::*;
use crate::common::types::{ProxyConfig, ProxyType, parse_proxy_type, spec_type_from_name};
use crate::digits::{IntParseError, parse_unsigned, spec_parse_unsigned};
use crate::net::{SocketAddr, SocketAddrV4, parse_ipv4, spec_parse_ipv4};
use crate::text::{
    chars_of, lowercase, spec_split, spec_trim, split_chars, string_of, trim_chars, views,
};

verus! {

/// A line that was passed over, with a warning.
#[derive(Debug, Clone)]
pub enum LineNotice {
    /// The (trimmed) line has no colon.
    InvalidFormat(String),
    /// The type field names no known type; HTTP is used. Holds the field.
    UnknownType(String),
}

/// Why a line stops the reading of the list.
#[derive(Debug, Clone, Copy, PartialEq, Eq, Structural)]
pub enum LineFailure {
    /// The port field is not a number from 0 to 65535.
    InvalidPort(IntParseError),
    /// The host field is not an IPv4 address.
    InvalidAddress,
}

/// What one line gives.
#[derive(Debug, Clone)]
pub enum LineParse {
    /// An empty line or a comment.
    Skip,
    /// A line without a colon (holds the trimmed line).
    Malformed(String),
    /// A line whose port or address is wrong.
    Failed(LineFailure),
    /// A proxy, and the type field when it named no known type.
    Entry(ProxyConfig, Option<String>),
}

/// What a list gives: its warnings in order, the proxies read, and the
/// failure that stopped the reading, if one did.
#[derive(Debug, Clone)]
pub struct ProxyListing {
    pub notices: Vec<LineNotice>,
    pub proxies: Vec<ProxyConfig>,
    pub failure: Option<LineFailure>,
}

/// A warning, as text.
pub enum NoticeView {
    InvalidFormat(Seq<char>),
    UnknownType(Seq<char>),
}

/// A proxy of the list: its address and type, and its credentials if any.
pub struct EntryView {
    pub address: SocketAddr,
    pub proxy_type: ProxyType,
    pub auth: Option<(Seq<char>, Seq<char>)>,
}

/// What one line gives, as values.
pub enum LineView {
    Skip,
    Malformed(Seq<char>),
    Failed(LineFailure),
    Entry(EntryView, Option<Seq<char>>),
}

/// What a list gives, as values.
pub struct ListingView {
    pub notices: Seq<NoticeView>,
    pub entries: Seq<EntryView>,
    pub failure: Option<LineFailure>,
}

pub open spec fn notice_view(n: LineNotice) -> NoticeView {
    match n {
        LineNotice::InvalidFormat(s) => NoticeView::InvalidFormat(s@),
        LineNotice::UnknownType(s) => NoticeView::UnknownType(s@),
    }
}

pub open spec fn entry_view(c: ProxyConfig) -> EntryView {
    EntryView {
        address: c.address,
        proxy_type: c.proxy_type,
        auth: match (c.username, c.password) {
            (Some(u), Some(p)) => Some((u@, p@)),
            _ => None,
        },
    }
}

/// Whether a proxy read from a list is set up as `ProxyConfig::new` and
/// `with_auth` leave it: a ten second timeout, and a user name exactly when a
/// password.
pub open spec fn entry_well_formed(c: ProxyConfig) -> bool {
    &&& c.timeout.spec_secs() == 10
    &&& c.timeout.spec_nanos() == 0
    &&& c.username is Some == c.password is Some
}

pub open spec fn line_view(l: LineParse) -> LineView {
    match l {
        LineParse::Skip => LineView::Skip,
        LineParse::Malformed(s) => LineView::Malformed(s@),
        LineParse::Failed(f) => LineView::Failed(f),
        LineParse::Entry(c, u) => LineView::Entry(
            entry_view(c),
            match u {
                Some(s) => Some(s@),
                None => None,
            },
        ),
    }
}

pub open spec fn listing_view(l: ProxyListing) -> ListingView {
    ListingView {
        notices: l.notices@.map_values(|n: LineNotice| notice_view(n)),
        entries: l.proxies@.map_values(|c: ProxyConfig| entry_view(c)),
        failure: l.failure,
    }
}

/// What one line of a list gives. The line is trimmed; an empty line or one
/// starting with `#` is skipped; the fields are the pieces between colons.
/// Fewer than two fields is a malformed line. The port is read first, then the
/// host as an IPv4 address (the host holds no colon, so `host:port` can only
/// be an IPv4 socket address). A third field names the type in any case, HTTP
/// when absent or unknown; a fifth field makes the fourth and fifth the
/// credentials.
pub open spec fn spec_line(raw: Seq<char>) -> LineView {
    let line = spec_trim(raw);
    if line.len() == 0 || line[0] == '#' {
        LineView::Skip
    } else {
        let parts = spec_split(line, ':');
        if parts.len() < 2 {
            LineView::Malformed(line)
        } else {
            match spec_parse_unsigned(parts[1], 65535) {
                Err(e) => LineView::Failed(LineFailure::InvalidPort(e)),
                Ok(port) => match spec_parse_ipv4(parts[0]) {
                    None => LineView::Failed(LineFailure::InvalidAddress),
                    Some(ip) => {
                        let named = if parts.len() > 2 {
                            spec_type_from_name(lowercase(parts[2]))
                        } else {
                            Some(ProxyType::Http)
                        };
                        LineView::Entry(
                            EntryView {
                                address: SocketAddr::V4(SocketAddrV4 { ip, port: port as u16 }),
                                proxy_type: match named {
                                    Some(t) => t,
                                    None => ProxyType::Http,
                                },
                                auth: if parts.len() > 4 {
                                    Some((parts[3], parts[4]))
                                } else {
                                    None
                                },
                            },
                            if named is None {
                                Some(parts[2])
                            } else {
                                None
                            },
                        )
                    },
                },
            }
        }
    }
}

/// What the lines of a list give, read in order; a failure stops the reading.
pub open spec fn spec_listing(lines: Seq<Seq<char>>) -> ListingView
    decreases lines.len(),
{
    if lines.len() == 0 {
        ListingView {
            notices: Seq::<NoticeView>::empty(),
            entries: Seq::<EntryView>::empty(),
            failure: None,
        }
    } else {
        let prev = spec_listing(lines.drop_last());
        if prev.failure is Some {
            prev
        } else {
            match spec_line(lines.last()) {
                LineView::Skip => prev,
                LineView::Malformed(l) => ListingView {
                    notices: prev.notices.push(NoticeView::InvalidFormat(l)),
                    ..prev
                },
                LineView::Failed(f) => ListingView { failure: Some(f), ..prev },
                LineView::Entry(e, unknown) => ListingView {
                    notices: match unknown {
                        Some(t) => prev.notices.push(NoticeView::UnknownType(t)),
                        None => prev.notices,
                    },
                    entries: prev.entries.push(e),
                    ..prev
                },
            }
        }
    }
}

/// What a list gives: its lines are the pieces between newlines (a carriage
/// return before a newline is white space and trimmed with the line).
pub open spec fn spec_load(content: Seq<char>) -> ListingView {
    spec_listing(spec_split(content, '\n'))
}

/// Reads one line of a list.
pub fn parse_line(raw: &[char]) -> (res: LineParse)
    ensures
        line_view(res) == spec_line(raw@),
        res matches LineParse::Entry(c, _) ==> entry_well_formed(c),
{
    let line = trim_chars(raw);
    if line.len() == 0 || line[0] == '#' {
        return LineParse::Skip;
    }
    let parts = split_chars(line.as_slice(), ':');
    proof {
        assert(views(parts@).len() == parts@.len());
        assert forall|i: int| 0 <= i < parts@.len() implies #[trigger] views(parts@)[i]
            == parts@[i]@ by {}
    }
    if parts.len() < 2 {
        return LineParse::Malformed(string_of(line.as_slice()));
    }
    let port = match parse_unsigned(parts[1].as_slice(), 65535) {
        Ok(p) => p as u16,
        Err(e) => return LineParse::Failed(LineFailure::InvalidPort(e)),
    };
    let ip = match parse_ipv4(parts[0].as_slice()) {
        Some(ip) => ip,
        None => return LineParse::Failed(LineFailure::InvalidAddress),
    };
    let address = SocketAddr::new_v4(ip, port);
    let mut unknown: Option<String> = None;
    let proxy_type = if parts.len() > 2 {
        let field = string_of(parts[2].as_slice());
        match parse_proxy_type(field.as_str()) {
            Some(t) => t,
            None => {
                unknown = Some(field);
                ProxyType::Http
            },
        }
    } else {
        ProxyType::Http
    };
    let mut config = ProxyConfig::new(address, proxy_type);
    if parts.len() > 4 {
        config = config.with_auth(string_of(parts[3].as_slice()), string_of(parts[4].as_slice()));
    }
    LineParse::Entry(config, unknown)
}

/// Reads a list of proxies, line by line, up to the first line that fails.
pub fn load_proxies(content: &str) -> (res: ProxyListing)
    ensures
        listing_view(res) == spec_load(content@),
        forall|i: int| 0 <= i < res.proxies@.len() ==> entry_well_formed(#[trigger] res.proxies@[i]),
{
    let chars = chars_of(content);
    let lines = split_chars(chars.as_slice(), '\n');
    let ghost all = spec_split(content@, '\n');
    let mut notices: Vec<LineNotice> = Vec::new();
    let mut proxies: Vec<ProxyConfig> = Vec::new();
    let mut failure: Option<LineFailure> = None;
    let mut i: usize = 0;
    proof {
        assert(views(lines@).len() == lines@.len());
        assert(all.take(0) =~= Seq::<Seq<char>>::empty());
        assert(listing_view(ProxyListing { notices, proxies, failure }) == spec_listing(
            all.take(0),
        )) by {
            assert(notices@.map_values(|n: LineNotice| notice_view(n)) =~= Seq::<
                NoticeView,
            >::empty());
            assert(proxies@.map_values(|c: ProxyConfig| entry_view(c)) =~= Seq::<
                EntryView,
            >::empty());
        }
    }
    while i < lines.len() && failure.is_none()
        invariant
            i <= lines@.len(),
            all == views(lines@),
            failure is Some ==> i > 0,
            listing_view(ProxyListing { notices, proxies, failure }) == spec_listing(
                all.take(i as int),
            ),
            forall|j: int| 0 <= j < proxies@.len() ==> entry_well_formed(#[trigger] proxies@[j]),
        decreases lines@.len() - i,
    {
        let ghost prev_notices = notices@;
        let ghost prev_proxies = proxies@;
        proof {
            assert(all.take(i + 1).drop_last() =~= all.take(i as int));
            assert(all.take(i + 1).last() == lines@[i as int]@);
        }
        let outcome = parse_line(lines[i].as_slice());
        match outcome {
            LineParse::Skip => {},
            LineParse::Malformed(l) => {
                notices.push(LineNotice::InvalidFormat(l));
                proof {
                    assert(notices@.map_values(|n: LineNotice| notice_view(n)) =~= prev_notices.map_values(
                        |n: LineNotice| notice_view(n),
                    ).push(notice_view(notices@.last())));
                }
            },
            LineParse::Failed(f) => {
                failure = Some(f);
            },
            LineParse::Entry(c, unknown) => {
                proxies.push(c);
                proof {
                    assert(proxies@.map_values(|c: ProxyConfig| entry_view(c)) =~= prev_proxies.map_values(
                        |c: ProxyConfig| entry_view(c),
                    ).push(entry_view(proxies@.last())));
                }
                match unknown {
                    Some(t) => {
                        notices.push(LineNotice::UnknownType(t));
                        proof {
                            assert(notices@.map_values(|n: LineNotice| notice_view(n)) =~= prev_notices.map_values(
                                |n: LineNotice| notice_view(n),
                            ).push(notice_view(notices@.last())));
                        }
                    },
                    None => {},
                }
            },
        }
        i += 1;
    }
    proof {
        if failure is Some {
            lemma_listing_stops(all, i as int);
        } else {
            assert(all.take(i as int) =~= all);
        }
    }
    ProxyListing { notices, proxies, failure }
}

/// Once reading has failed, later lines change nothing.
pub proof fn lemma_listing_stops(lines: Seq<Seq<char>>, k: int)
    requires
        0 <= k <= lines.len(),
        spec_listing(lines.take(k)).failure is Some,
    ensures
        spec_listing(lines) == spec_listing(lines.take(k)),
    decreases lines.len() - k,
{
    if k == lines.len() {
        assert(lines.take(k) =~= lines);
    } else {
        assert(lines.take(k + 1).drop_last() =~= lines.take(k));
        lemma_listing_stops(lines, k + 1);
    }
}

} // verus!
