use vstd::prelude::*;
use crate::text::push_char;

verus! {

/// Why a string is not an unsigned integer (the kinds of `std::num::IntErrorKind`
/// that unsigned parsing can give).
#[derive(Debug, Clone, Copy, PartialEq, Eq, Structural)]
pub enum IntParseError {
    /// The string is empty.
    Empty,
    /// A character is not a decimal digit.
    InvalidDigit,
    /// The value is larger than the type's maximum.
    PosOverflow,
}

pub open spec fn is_digit(c: char) -> bool {
    '0' <= c <= '9'
}

pub open spec fn digit_value(c: char) -> int {
    c as int - '0' as int
}

/// The character of a digit below sixteen: `0`-`9`, then `a`-`f`.
pub open spec fn digit_char(d: int) -> char {
    if d < 10 {
        ((d + '0' as int) as u32) as char
    } else {
        ((d - 10 + 'a' as int) as u32) as char
    }
}

/// Whether every character of `s` is a decimal digit.
pub open spec fn all_digits(s: Seq<char>) -> bool {
    forall|i: int| 0 <= i < s.len() ==> is_digit(#[trigger] s[i])
}

/// The value of a string of decimal digits.
pub open spec fn digits_value(s: Seq<char>) -> int
    decreases s.len(),
{
    if s.len() == 0 {
        0
    } else {
        digits_value(s.drop_last()) * 10 + digit_value(s.last())
    }
}

/// Reads `d` left to right as a decimal number no larger than `max`: the first
/// character that is no digit, or the first prefix whose value exceeds `max`,
/// decides the error.
pub open spec fn scan_digits(d: Seq<char>, max: int) -> Result<int, IntParseError>
    decreases d.len(),
{
    if d.len() == 0 {
        Ok(0)
    } else {
        match scan_digits(d.drop_last(), max) {
            Err(e) => Err(e),
            Ok(v) => if !is_digit(d.last()) {
                Err(IntParseError::InvalidDigit)
            } else if v * 10 + digit_value(d.last()) > max {
                Err(IntParseError::PosOverflow)
            } else {
                Ok(v * 10 + digit_value(d.last()))
            },
        }
    }
}

/// The digits of an unsigned number: one leading `+` is dropped.
pub open spec fn unsigned_body(s: Seq<char>) -> Seq<char> {
    if s.len() > 0 && s[0] == '+' {
        s.drop_first()
    } else {
        s
    }
}

/// What parsing `s` as an unsigned integer type whose maximum is `max` gives
/// (`FromStr` of `u8` ... `u64`, `usize`).
pub open spec fn spec_parse_unsigned(s: Seq<char>, max: int) -> Result<int, IntParseError> {
    if s.len() == 0 {
        Err(IntParseError::Empty)
    } else if unsigned_body(s).len() == 0 {
        Err(IntParseError::InvalidDigit)
    } else {
        scan_digits(unsigned_body(s), max)
    }
}

/// The decimal representation of `n`, without leading zeros.
pub open spec fn spec_decimal(n: nat) -> Seq<char>
    decreases n,
{
    if n < 10 {
        seq![digit_char(n as int)]
    } else {
        spec_decimal(n / 10).push(digit_char((n % 10) as int))
    }
}

/// The lower-case hexadecimal representation of `n`, without leading zeros
/// (the `{:x}` format).
pub open spec fn spec_hex(n: nat) -> Seq<char>
    decreases n,
{
    if n < 16 {
        seq![digit_char(n as int)]
    } else {
        spec_hex(n / 16).push(digit_char((n % 16) as int))
    }
}

pub fn digit_to_char(d: u64) -> (c: char)
    requires
        d < 16,
    ensures
        c == digit_char(d as int),
{
    let c: char = match d {
        0 => '0',
        1 => '1',
        2 => '2',
        3 => '3',
        4 => '4',
        5 => '5',
        6 => '6',
        7 => '7',
        8 => '8',
        9 => '9',
        10 => 'a',
        11 => 'b',
        12 => 'c',
        13 => 'd',
        14 => 'e',
        _ => 'f',
    };
    c
}

pub proof fn lemma_digit_char(d: int)
    requires
        0 <= d < 10,
    ensures
        is_digit(digit_char(d)),
        digit_value(digit_char(d)) == d,
        digit_char(d) != '.',
        digit_char(d) != ':',
        digit_char(d) != '+',
{
}

/// Appends the decimal representation of `n`.
pub fn push_decimal(out: &mut String, n: u64)
    ensures
        final(out)@ == old(out)@ + spec_decimal(n as nat),
    decreases n,
{
    if n >= 10 {
        push_decimal(out, n / 10);
    }
    push_char(out, digit_to_char(n % 10));
    proof {
        if n >= 10 {
            assert(old(out)@ + spec_decimal(n as nat) =~= old(out)@ + spec_decimal(
                (n / 10) as nat,
            ) + seq![digit_char((n % 10) as int)]);
        } else {
            assert(n % 10 == n);
        }
    }
}

/// Appends the lower-case hexadecimal representation of `n`.
pub fn push_hex(out: &mut String, n: u64)
    ensures
        final(out)@ == old(out)@ + spec_hex(n as nat),
    decreases n,
{
    if n >= 16 {
        push_hex(out, n / 16);
    }
    push_char(out, digit_to_char(n % 16));
    proof {
        if n >= 16 {
            assert(old(out)@ + spec_hex(n as nat) =~= old(out)@ + spec_hex((n / 16) as nat)
                + seq![digit_char((n % 16) as int)]);
        } else {
            assert(n % 16 == n);
        }
    }
}

/// The decimal representation of `n` (`n.to_string()`).
pub fn decimal_string(n: u64) -> (res: String)
    ensures
        res@ == spec_decimal(n as nat),
{
    let mut res = String::new();
    push_decimal(&mut res, n);
    proof {
        assert(Seq::<char>::empty() + spec_decimal(n as nat) =~= spec_decimal(n as nat));
    }
    res
}

/// Once a prefix of `d` is refused, so is `d`, with the same error.
pub proof fn lemma_scan_prefix_err(d: Seq<char>, k: int, max: int)
    requires
        0 <= k <= d.len(),
        scan_digits(d.take(k), max) is Err,
    ensures
        scan_digits(d, max) == scan_digits(d.take(k), max),
    decreases d.len() - k,
{
    if k == d.len() {
        assert(d.take(k) =~= d);
    } else {
        assert(d.take(k + 1).drop_last() =~= d.take(k));
        lemma_scan_prefix_err(d, k + 1, max);
    }
}

/// Parses `s` as an unsigned integer no larger than `max`, as `FromStr` of the
/// unsigned integer types does.
pub fn parse_unsigned(s: &[char], max: u64) -> (res: Result<u64, IntParseError>)
    ensures
        spec_parse_unsigned(s@, max as int) == match res {
            Ok(v) => Ok(v as int),
            Err(e) => Err::<int, IntParseError>(e),
        },
{
    if s.len() == 0 {
        return Err(IntParseError::Empty);
    }
    let start: usize = if s[0] == '+' {
        1
    } else {
        0
    };
    let ghost body = unsigned_body(s@);
    proof {
        assert(body =~= s@.skip(start as int));
    }
    if start == s.len() {
        return Err(IntParseError::InvalidDigit);
    }
    let mut v: u64 = 0;
    let mut i: usize = start;
    proof {
        assert(body.take(0) =~= Seq::<char>::empty());
    }
    while i < s.len()
        invariant
            start <= i <= s.len(),
            start < s.len(),
            body == s@.skip(start as int),
            body == unsigned_body(s@),
            v <= max,
            scan_digits(body.take(i - start), max as int) == Ok::<int, IntParseError>(v as int),
        decreases s.len() - i,
    {
        let c = s[i];
        proof {
            assert(body.take(i - start + 1).drop_last() =~= body.take(i - start));
            assert(body.take(i - start + 1).last() == c);
        }
        if !('0' <= c && c <= '9') {
            proof {
                lemma_scan_prefix_err(body, i - start + 1, max as int);
            }
            return Err(IntParseError::InvalidDigit);
        }
        let d: u64 = (c as u32 - '0' as u32) as u64;
        let nv: u128 = (v as u128) * 10 + (d as u128);
        if nv > max as u128 {
            proof {
                lemma_scan_prefix_err(body, i - start + 1, max as int);
            }
            return Err(IntParseError::PosOverflow);
        }
        v = nv as u64;
        i += 1;
    }
    proof {
        assert(body.take(s.len() - start) =~= body);
    }
    Ok(v)
}

/// The digits of `n` read back give `n`.
pub proof fn lemma_decimal_scan(n: nat, max: int)
    requires
        n <= max,
    ensures
        scan_digits(spec_decimal(n), max) == Ok::<int, IntParseError>(n as int),
        spec_decimal(n).len() >= 1,
        all_digits(spec_decimal(n)),
    decreases n,
{
    if n < 10 {
        lemma_digit_char(n as int);
        let d = spec_decimal(n);
        assert(d == seq![digit_char(n as int)]);
        assert(d.drop_last() =~= Seq::<char>::empty());
        assert(d.last() == digit_char(n as int));
        assert(scan_digits(d.drop_last(), max) == Ok::<int, IntParseError>(0));
    } else {
        lemma_decimal_scan(n / 10, max);
        lemma_digit_char((n % 10) as int);
        assert(spec_decimal(n).drop_last() =~= spec_decimal(n / 10));
        assert forall|i: int| 0 <= i < spec_decimal(n).len() implies is_digit(
            #[trigger] spec_decimal(n)[i],
        ) by {
            if i < spec_decimal(n / 10).len() {
                assert(spec_decimal(n)[i] == spec_decimal(n / 10)[i]);
            }
        }
    }
}

/// Parsing the decimal representation of a number no larger than the type's
/// maximum gives the number back.
pub proof fn lemma_parse_decimal(n: nat, max: int)
    requires
        n <= max,
    ensures
        spec_parse_unsigned(spec_decimal(n), max) == Ok::<int, IntParseError>(n as int),
{
    lemma_decimal_scan(n, max);
    assert(spec_decimal(n)[0] != '+') by {
        assert(is_digit(spec_decimal(n)[0]));
    }
}

} // verus!
