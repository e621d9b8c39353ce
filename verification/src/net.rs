use vstd::prelude::*;
use crate::digits::{
    IntParseError, all_digits, digit_char, digits_value, is_digit, lemma_digit_char,
    parse_unsigned, push_decimal, push_hex, scan_digits, spec_decimal, spec_hex, unsigned_body,
};
use crate::text::{lemma_split_concat, lemma_split_no_sep, push_char, spec_split, split_chars, views};

verus! {

/// An IPv4 address, as its four octets in network order.
#[derive(Debug, Clone, Copy, PartialEq, Eq)]
pub struct Ipv4Addr {
    pub a: u8,
    pub b: u8,
    pub c: u8,
    pub d: u8,
}

/// An IPv6 address, as its eight 16-bit segments in network order.
#[derive(Debug, Clone, Copy, PartialEq, Eq)]
pub struct Ipv6Addr {
    pub segments: [u16; 8],
}

/// An IPv4 socket address.
#[derive(Debug, Clone, Copy, PartialEq, Eq)]
pub struct SocketAddrV4 {
    pub ip: Ipv4Addr,
    pub port: u16,
}

/// An IPv6 socket address, with its flow information and scope id.
#[derive(Debug, Clone, Copy, PartialEq, Eq)]
pub struct SocketAddrV6 {
    pub ip: Ipv6Addr,
    pub port: u16,
    pub flowinfo: u32,
    pub scope_id: u32,
}

/// An internet socket address, IPv4 or IPv6.
#[derive(Debug, Clone, Copy, PartialEq, Eq)]
pub enum SocketAddr {
    V4(SocketAddrV4),
    V6(SocketAddrV6),
}

impl Ipv4Addr {
    pub fn new(a: u8, b: u8, c: u8, d: u8) -> (res: Ipv4Addr)
        ensures
            res == (Ipv4Addr { a, b, c, d }),
    {
        Ipv4Addr { a, b, c, d }
    }
}

impl Ipv6Addr {
    pub fn new(segments: [u16; 8]) -> (res: Ipv6Addr)
        ensures
            res == (Ipv6Addr { segments }),
    {
        Ipv6Addr { segments }
    }
}

impl SocketAddr {
    /// The IPv4 socket address of `ip` and `port`.
    pub fn new_v4(ip: Ipv4Addr, port: u16) -> (res: SocketAddr)
        ensures
            res == SocketAddr::V4(SocketAddrV4 { ip, port }),
    {
        SocketAddr::V4(SocketAddrV4 { ip, port })
    }

    /// The IPv6 socket address of `ip` and `port`, with no flow information
    /// and scope id 0.
    pub fn new_v6(ip: Ipv6Addr, port: u16) -> (res: SocketAddr)
        ensures
            res == SocketAddr::V6(SocketAddrV6 { ip, port, flowinfo: 0, scope_id: 0 }),
    {
        SocketAddr::V6(SocketAddrV6 { ip, port, flowinfo: 0, scope_id: 0 })
    }

    pub open spec fn spec_port(self) -> u16 {
        match self {
            SocketAddr::V4(v) => v.port,
            SocketAddr::V6(v) => v.port,
        }
    }

    /// The port number.
    pub fn port(&self) -> (res: u16)
        ensures
            res == self.spec_port(),
    {
        match self {
            SocketAddr::V4(v) => v.port,
            SocketAddr::V6(v) => v.port,
        }
    }

    /// The text form of the address (`Display` of `std::net::SocketAddr`).
    pub fn to_string(&self) -> (res: String)
        ensures
            res@ == spec_socket_text(*self),
    {
        let mut out = String::new();
        push_socket_addr(&mut out, self);
        proof {
            assert(Seq::<char>::empty() + spec_socket_text(*self) =~= spec_socket_text(*self));
        }
        out
    }
}

// ---------------------------------------------------------------------------
// IPv4 text
// ---------------------------------------------------------------------------

/// The dotted decimal form `a.b.c.d`.
pub open spec fn spec_ipv4_text(ip: Ipv4Addr) -> Seq<char> {
    spec_decimal(ip.a as nat) + seq!['.'] + spec_decimal(ip.b as nat) + seq!['.'] + spec_decimal(
        ip.c as nat,
    ) + seq!['.'] + spec_decimal(ip.d as nat)
}

/// Whether `p` is one octet of a dotted decimal address: one to three decimal
/// digits, no leading zero unless it is the only digit, at most 255.
pub open spec fn valid_octet(p: Seq<char>) -> bool {
    &&& 1 <= p.len() <= 3
    &&& all_digits(p)
    &&& (p.len() == 1 || p[0] != '0')
    &&& digits_value(p) <= 255
}

/// What parsing `s` as an IPv4 address gives (`FromStr` of `std::net::Ipv4Addr`):
/// exactly four valid octets separated by dots.
pub open spec fn spec_parse_ipv4(s: Seq<char>) -> Option<Ipv4Addr> {
    let parts = spec_split(s, '.');
    if parts.len() == 4 && valid_octet(parts[0]) && valid_octet(parts[1]) && valid_octet(parts[2])
        && valid_octet(parts[3]) {
        Some(
            Ipv4Addr {
                a: digits_value(parts[0]) as u8,
                b: digits_value(parts[1]) as u8,
                c: digits_value(parts[2]) as u8,
                d: digits_value(parts[3]) as u8,
            },
        )
    } else {
        None
    }
}

/// A string of digits is read without error exactly when its value fits.
pub proof fn lemma_scan_digits(d: Seq<char>, max: int)
    requires
        max >= 0,
    ensures
        (scan_digits(d, max) is Ok) == (all_digits(d) && digits_value(d) <= max),
        scan_digits(d, max) is Ok ==> scan_digits(d, max) == Ok::<int, IntParseError>(
            digits_value(d),
        ),
        all_digits(d) ==> digits_value(d) >= 0,
    decreases d.len(),
{
    if d.len() > 0 {
        let p = d.drop_last();
        lemma_scan_digits(p, max);
        assert(all_digits(d) ==> all_digits(p)) by {
            if all_digits(d) {
                assert forall|i: int| 0 <= i < p.len() implies is_digit(#[trigger] p[i]) by {
                    assert(p[i] == d[i]);
                }
            }
        }
        assert(all_digits(p) && is_digit(d.last()) ==> all_digits(d)) by {
            if all_digits(p) && is_digit(d.last()) {
                assert forall|i: int| 0 <= i < d.len() implies is_digit(#[trigger] d[i]) by {
                    if i < p.len() {
                        assert(p[i] == d[i]);
                    }
                }
            }
        }
        assert(all_digits(d) ==> is_digit(d.last())) by {
            if all_digits(d) {
                assert(is_digit(d[d.len() - 1]));
            }
        }
    }
}

/// Facts about the decimal representation of a number.
pub proof fn lemma_decimal_facts(n: nat)
    ensures
        spec_decimal(n).len() >= 1,
        all_digits(spec_decimal(n)),
        digits_value(spec_decimal(n)) == n,
        n < 1000 ==> spec_decimal(n).len() <= 3,
        n < 100 ==> spec_decimal(n).len() <= 2,
        n < 10 ==> spec_decimal(n).len() == 1,
        spec_decimal(n)[0] == '0' ==> n == 0,
        !spec_decimal(n).contains('.'),
        !spec_decimal(n).contains(':'),
        !spec_decimal(n).contains('+'),
    decreases n,
{
    let s = spec_decimal(n);
    if n < 10 {
        lemma_digit_char(n as int);
        assert(s.drop_last() =~= Seq::<char>::empty());
        assert(s.last() == digit_char(n as int));
        assert(digits_value(s.drop_last()) == 0);
        assert(digits_value(s) == n);
    } else {
        lemma_decimal_facts(n / 10);
        lemma_digit_char((n % 10) as int);
        let p = spec_decimal(n / 10);
        assert(s.drop_last() =~= p);
        assert(s[0] == p[0]);
        assert(s.last() == digit_char((n % 10) as int));
        assert(digits_value(s) == digits_value(p) * 10 + (n % 10));
        assert((n / 10) * 10 + n % 10 == n);
        assert forall|i: int| 0 <= i < s.len() implies is_digit(#[trigger] s[i]) by {
            if i < p.len() {
                assert(s[i] == p[i]);
            }
        }
    }
    assert forall|c: char| !is_digit(c) implies !s.contains(c) by {
        if s.contains(c) {
            let k = choose|k: int| 0 <= k < s.len() && s[k] == c;
            assert(is_digit(s[k]));
        }
    }
}

/// A number below 256 written in decimal is a valid octet of that value.
pub proof fn lemma_decimal_octet(n: u8)
    ensures
        valid_octet(spec_decimal(n as nat)),
        digits_value(spec_decimal(n as nat)) == n,
{
    lemma_decimal_facts(n as nat);
}

/// The dotted decimal form of an address parses back to the address.
pub proof fn lemma_ipv4_text_parse(ip: Ipv4Addr)
    ensures
        spec_parse_ipv4(spec_ipv4_text(ip)) == Some(ip),
{
    let d0 = spec_decimal(ip.a as nat);
    let d1 = spec_decimal(ip.b as nat);
    let d2 = spec_decimal(ip.c as nat);
    let d3 = spec_decimal(ip.d as nat);
    lemma_decimal_octet(ip.a);
    lemma_decimal_octet(ip.b);
    lemma_decimal_octet(ip.c);
    lemma_decimal_octet(ip.d);
    lemma_decimal_facts(ip.a as nat);
    lemma_decimal_facts(ip.b as nat);
    lemma_decimal_facts(ip.c as nat);
    lemma_decimal_facts(ip.d as nat);
    let t3 = d3;
    let t2 = d2 + seq!['.'] + t3;
    let t1 = d1 + seq!['.'] + t2;
    let t0 = d0 + seq!['.'] + t1;
    assert(spec_ipv4_text(ip) =~= t0);
    lemma_split_no_sep(t3, '.');
    lemma_split_concat(d2, t3, '.');
    lemma_split_concat(d1, t2, '.');
    lemma_split_concat(d0, t1, '.');
    let parts = spec_split(t0, '.');
    assert(parts =~= seq![d0, d1, d2, d3]);
}

/// Appends the dotted decimal form of `ip`.
pub fn push_ipv4(out: &mut String, ip: &Ipv4Addr)
    ensures
        final(out)@ == old(out)@ + spec_ipv4_text(*ip),
{
    push_decimal(out, ip.a as u64);
    push_char(out, '.');
    push_decimal(out, ip.b as u64);
    push_char(out, '.');
    push_decimal(out, ip.c as u64);
    push_char(out, '.');
    push_decimal(out, ip.d as u64);
    proof {
        assert(final(out)@ =~= old(out)@ + spec_ipv4_text(*ip));
    }
}

/// Reads one octet of a dotted decimal address.
pub fn parse_octet(p: &[char]) -> (res: Option<u8>)
    ensures
        res == if valid_octet(p@) {
            Some(digits_value(p@) as u8)
        } else {
            None::<u8>
        },
{
    proof {
        lemma_scan_digits(p@, 255);
    }
    if p.len() == 0 || p.len() > 3 || p[0] == '+' || (p.len() > 1 && p[0] == '0') {
        proof {
            if p.len() > 0 && p[0] == '+' {
                assert(!is_digit(p@[0]));
            }
        }
        return None;
    }
    proof {
        assert(unsigned_body(p@) == p@);
    }
    match parse_unsigned(p, 255) {
        Ok(v) => Some(v as u8),
        Err(_) => None,
    }
}

/// Parses a dotted decimal IPv4 address (`FromStr` of `std::net::Ipv4Addr`).
pub fn parse_ipv4(s: &[char]) -> (res: Option<Ipv4Addr>)
    ensures
        res == spec_parse_ipv4(s@),
{
    let parts = split_chars(s, '.');
    proof {
        assert(views(parts@).len() == parts@.len());
    }
    if parts.len() != 4 {
        return None;
    }
    proof {
        assert(views(parts@)[0] == parts@[0]@);
        assert(views(parts@)[1] == parts@[1]@);
        assert(views(parts@)[2] == parts@[2]@);
        assert(views(parts@)[3] == parts@[3]@);
    }
    let a = parse_octet(parts[0].as_slice());
    let b = parse_octet(parts[1].as_slice());
    let c = parse_octet(parts[2].as_slice());
    let d = parse_octet(parts[3].as_slice());
    match (a, b, c, d) {
        (Some(a), Some(b), Some(c), Some(d)) => Some(Ipv4Addr { a, b, c, d }),
        _ => None,
    }
}

// ---------------------------------------------------------------------------
// IPv6 text
// ---------------------------------------------------------------------------

/// The number of consecutive zero segments starting at `i`.
pub open spec fn zeros_at(s: Seq<u16>, i: int) -> int
    decreases s.len() - i,
{
    if 0 <= i < s.len() && s[i] == 0 {
        1 + zeros_at(s, i + 1)
    } else {
        0
    }
}

/// The start and length of the longest run of zero segments at or after `i`;
/// of several runs of that length, the leftmost.
pub open spec fn longest_zero_run(s: Seq<u16>, i: int) -> (int, int)
    decreases s.len() - i,
{
    if i < 0 || i >= s.len() {
        (s.len() as int, 0)
    } else {
        let r = longest_zero_run(s, i + 1);
        if zeros_at(s, i) >= r.1 {
            (i, zeros_at(s, i))
        } else {
            r
        }
    }
}

/// Segments in lower-case hexadecimal, separated by colons.
pub open spec fn spec_groups(xs: Seq<u16>) -> Seq<char>
    decreases xs.len(),
{
    if xs.len() == 0 {
        Seq::<char>::empty()
    } else if xs.len() == 1 {
        spec_hex(xs[0] as nat)
    } else {
        spec_groups(xs.drop_last()) + seq![':'] + spec_hex(xs.last() as nat)
    }
}

/// Whether the segments are those of an IPv4-mapped address `::ffff:a.b.c.d`.
pub open spec fn is_ipv4_mapped(s: Seq<u16>) -> bool {
    s[0] == 0 && s[1] == 0 && s[2] == 0 && s[3] == 0 && s[4] == 0 && s[5] == 0xffff
}

/// The IPv4 address held in the last two segments.
pub open spec fn mapped_ipv4(s: Seq<u16>) -> Ipv4Addr {
    Ipv4Addr {
        a: (s[6] / 256) as u8,
        b: (s[6] % 256) as u8,
        c: (s[7] / 256) as u8,
        d: (s[7] % 256) as u8,
    }
}

/// The text form of an IPv6 address (`Display` of `std::net::Ipv6Addr`):
/// IPv4-mapped addresses as `::ffff:a.b.c.d`; otherwise the segments in
/// hexadecimal, with the longest run of two or more zero segments (the
/// leftmost of equal runs) written as `::`.
pub open spec fn spec_ipv6_text(ip: Ipv6Addr) -> Seq<char> {
    let s = ip.segments@;
    if is_ipv4_mapped(s) {
        seq![':', ':', 'f', 'f', 'f', 'f', ':'] + spec_ipv4_text(mapped_ipv4(s))
    } else {
        let r = longest_zero_run(s, 0);
        if r.1 > 1 {
            spec_groups(s.subrange(0, r.0)) + seq![':', ':'] + spec_groups(s.subrange(r.0 + r.1, 8))
        } else {
            spec_groups(s)
        }
    }
}

proof fn lemma_zeros_at_bound(s: Seq<u16>, i: int)
    requires
        0 <= i <= s.len(),
    ensures
        0 <= zeros_at(s, i) <= s.len() - i,
    decreases s.len() - i,
{
    if i < s.len() {
        lemma_zeros_at_bound(s, i + 1);
    }
}

/// Appends the segments `from..to` of `segs`, in hexadecimal, separated by colons.
pub fn push_groups(out: &mut String, segs: &[u16; 8], from: usize, to: usize)
    requires
        from <= to <= 8,
    ensures
        final(out)@ == old(out)@ + spec_groups(segs@.subrange(from as int, to as int)),
{
    let mut j: usize = from;
    proof {
        assert(segs@.subrange(from as int, from as int) =~= Seq::<u16>::empty());
        assert(old(out)@ + Seq::<char>::empty() =~= old(out)@);
    }
    while j < to
        invariant
            from <= j <= to <= 8,
            out@ == old(out)@ + spec_groups(segs@.subrange(from as int, j as int)),
        decreases to - j,
    {
        let ghost before = out@;
        let ghost xs = segs@.subrange(from as int, j + 1);
        proof {
            assert(xs.drop_last() =~= segs@.subrange(from as int, j as int));
            assert(xs.last() == segs@[j as int]);
        }
        if j > from {
            push_char(out, ':');
        }
        push_hex(out, segs[j] as u64);
        proof {
            if j > from {
                assert(out@ =~= old(out)@ + spec_groups(xs));
            } else {
                assert(xs.len() == 1);
                assert(xs[0] == segs@[j as int]);
                assert(out@ =~= old(out)@ + spec_groups(xs));
            }
        }
        j += 1;
    }
}

/// Appends the text form of an IPv6 address.
pub fn push_ipv6(out: &mut String, ip: &Ipv6Addr)
    ensures
        final(out)@ == old(out)@ + spec_ipv6_text(*ip),
{
    let s = &ip.segments;
    if s[0] == 0 && s[1] == 0 && s[2] == 0 && s[3] == 0 && s[4] == 0 && s[5] == 0xffff {
        push_char(out, ':');
        push_char(out, ':');
        push_char(out, 'f');
        push_char(out, 'f');
        push_char(out, 'f');
        push_char(out, 'f');
        push_char(out, ':');
        let v4 = Ipv4Addr {
            a: (s[6] / 256) as u8,
            b: (s[6] % 256) as u8,
            c: (s[7] / 256) as u8,
            d: (s[7] % 256) as u8,
        };
        push_ipv4(out, &v4);
        proof {
            assert(v4 == mapped_ipv4(ip.segments@));
            assert(final(out)@ =~= old(out)@ + spec_ipv6_text(*ip));
        }
    } else {
        let mut i: usize = 8;
        let mut z: usize = 0;
        let mut best_start: usize = 8;
        let mut best_len: usize = 0;
        while i > 0
            invariant
                i <= 8,
                s@.len() == 8,
                z == zeros_at(s@, i as int),
                (best_start as int, best_len as int) == longest_zero_run(s@, i as int),
                z <= 8 - i,
                best_start + best_len <= 8,
            decreases i,
        {
            i -= 1;
            if s[i] == 0 {
                z += 1;
            } else {
                z = 0;
            }
            proof {
                lemma_zeros_at_bound(s@, i as int);
            }
            if z >= best_len {
                best_start = i;
                best_len = z;
            }
        }
        if best_len > 1 {
            push_groups(out, s, 0, best_start);
            push_char(out, ':');
            push_char(out, ':');
            push_groups(out, s, best_start + best_len, 8);
            proof {
                assert(final(out)@ =~= old(out)@ + spec_ipv6_text(*ip));
            }
        } else {
            push_groups(out, s, 0, 8);
            proof {
                assert(s@.subrange(0, 8) =~= s@);
            }
        }
    }
}

// ---------------------------------------------------------------------------
// Socket address text
// ---------------------------------------------------------------------------

/// The text form of a socket address (`Display` of `std::net::SocketAddr`):
/// `a.b.c.d:port`, or `[ipv6]:port` with `%scope` after the address when the
/// scope id is not 0.
pub open spec fn spec_socket_text(addr: SocketAddr) -> Seq<char> {
    match addr {
        SocketAddr::V4(v) => spec_ipv4_text(v.ip) + seq![':'] + spec_decimal(v.port as nat),
        SocketAddr::V6(v) => seq!['['] + spec_ipv6_text(v.ip) + (if v.scope_id == 0 {
            Seq::<char>::empty()
        } else {
            seq!['%'] + spec_decimal(v.scope_id as nat)
        }) + seq![']', ':'] + spec_decimal(v.port as nat),
    }
}

/// Appends the text form of a socket address.
pub fn push_socket_addr(out: &mut String, addr: &SocketAddr)
    ensures
        final(out)@ == old(out)@ + spec_socket_text(*addr),
{
    match addr {
        SocketAddr::V4(v) => {
            push_ipv4(out, &v.ip);
            push_char(out, ':');
            push_decimal(out, v.port as u64);
            proof {
                assert(final(out)@ =~= old(out)@ + spec_socket_text(*addr));
            }
        },
        SocketAddr::V6(v) => {
            push_char(out, '[');
            push_ipv6(out, &v.ip);
            if v.scope_id != 0 {
                push_char(out, '%');
                push_decimal(out, v.scope_id as u64);
            }
            push_char(out, ']');
            push_char(out, ':');
            push_decimal(out, v.port as u64);
            proof {
                assert(final(out)@ =~= old(out)@ + spec_socket_text(*addr));
            }
        },
    }
}

} // verus!
