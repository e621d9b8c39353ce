//! Setting a scanner up from option texts: the concurrency, the timeout in
//! seconds, and the proxy type names to prefer.

use vstd::prelude::*;
use crate::common::config::ScannerConfig;
use crate::common::time::Duration;
use crate::common::types::{ProxyType, lemma_type_from_name, parse_proxy_type, spec_type_from_name};
use crate::digits::{IntParseError, parse_unsigned, spec_parse_unsigned};
use crate::scanner::scanner::{Scanner, checkers_for};
use crate::text::{chars_of, lowercase};

verus! {

/// Why the options do not make a scanner.
#[derive(Debug, Clone)]
pub enum OptionsError {
    /// The concurrency is not a number.
    InvalidConcurrency(IntParseError),
    /// The timeout is not a number of seconds.
    InvalidTimeout(IntParseError),
    /// A type name stands for no proxy type (holds the name).
    UnsupportedType(String),
}

/// Whether a type name, in any case, stands for a proxy type.
pub open spec fn known_name(name: Seq<char>) -> bool {
    spec_type_from_name(lowercase(name)) is Some
}

/// The proxy type a known name stands for.
pub open spec fn named_type(name: Seq<char>) -> ProxyType {
    spec_type_from_name(lowercase(name))->Some_0
}

/// A preferred type read from a type name is the type whose name is that
/// name in lower case.
pub proof fn lemma_named_type(name: Seq<char>)
    requires
        known_name(name),
    ensures
        named_type(name).spec_name() == lowercase(name),
{
    lemma_type_from_name(lowercase(name), named_type(name));
}

/// The proxy types that `names` stand for, or the index of the first name that
/// stands for none.
pub fn types_from_names(names: &Vec<String>) -> (res: Result<Vec<ProxyType>, usize>)
    ensures
        match res {
            Ok(types) => {
                &&& types@.len() == names@.len()
                &&& forall|i: int|
                    0 <= i < names@.len() ==> known_name(#[trigger] names@[i]@) && types@[i]
                        == named_type(names@[i]@) && spec_type_from_name(lowercase(names@[i]@))
                        == Some(types@[i])
            },
            Err(k) => {
                &&& k < names@.len()
                &&& !known_name(names@[k as int]@)
                &&& forall|i: int| 0 <= i < k ==> known_name(#[trigger] names@[i]@)
            },
        },
{
    let mut types: Vec<ProxyType> = Vec::new();
    let mut i: usize = 0;
    while i < names.len()
        invariant
            i <= names@.len(),
            types@.len() == i,
            forall|j: int|
                0 <= j < i ==> known_name(#[trigger] names@[j]@) && types@[j] == named_type(
                    names@[j]@,
                ) && spec_type_from_name(lowercase(names@[j]@)) == Some(types@[j]),
        decreases names@.len() - i,
    {
        match parse_proxy_type(names[i].as_str()) {
            Some(t) => types.push(t),
            None => return Err(i),
        }
        i += 1;
    }
    Ok(types)
}

/// The configuration the options give: the defaults, with the concurrency and
/// the timeout (whole seconds) set, and the preferred types when names are
/// given.
pub open spec fn options_config(c: ScannerConfig, concurrency: int, timeout: int) -> bool {
    &&& c.concurrency == concurrency
    &&& c.timeout.spec_secs() == timeout
    &&& c.timeout.spec_nanos() == 0
    &&& c.retry_count == 2
    &&& !c.check_all_types
    &&& c.verify_url matches Some(u) && u@ == "http://www.google.com"@
}

/// A scanner set up from option texts. The concurrency is read first, then
/// the timeout; then each type name in order, where the first that stands for
/// no type is refused.
pub fn scanner_from_options(concurrency: &str, timeout: &str, types: Option<Vec<String>>) -> (res:
    Result<Scanner, OptionsError>)
    ensures
        spec_parse_unsigned(concurrency@, usize::MAX as int) is Err ==> res is Err
            && res->Err_0 == OptionsError::InvalidConcurrency(
            spec_parse_unsigned(concurrency@, usize::MAX as int)->Err_0,
        ),
        spec_parse_unsigned(concurrency@, usize::MAX as int) is Ok && spec_parse_unsigned(
            timeout@,
            u64::MAX as int,
        ) is Err ==> res is Err && res->Err_0 == OptionsError::InvalidTimeout(
            spec_parse_unsigned(timeout@, u64::MAX as int)->Err_0,
        ),
        spec_parse_unsigned(concurrency@, usize::MAX as int) is Ok && spec_parse_unsigned(
            timeout@,
            u64::MAX as int,
        ) is Ok ==> {
            let c = spec_parse_unsigned(concurrency@, usize::MAX as int)->Ok_0;
            let t = spec_parse_unsigned(timeout@, u64::MAX as int)->Ok_0;
            match types {
                None => res is Ok && options_config(res->Ok_0.spec_config(), c, t)
                    && res->Ok_0.spec_config().preferred_types@ == seq![
                    ProxyType::Http,
                    ProxyType::Socks5,
                ] && res->Ok_0.spec_checkers() == checkers_for(res->Ok_0.spec_config()),
                Some(names) => {
                    &&& (res is Ok) == (forall|i: int|
                        0 <= i < names@.len() ==> known_name(#[trigger] names@[i]@))
                    &&& res is Ok ==> {
                        &&& options_config(res->Ok_0.spec_config(), c, t)
                        &&& res->Ok_0.spec_config().preferred_types@.len() == names@.len()
                        &&& forall|i: int|
                            0 <= i < names@.len()
                                ==> #[trigger] res->Ok_0.spec_config().preferred_types@[i]
                                == named_type(names@[i]@) && spec_type_from_name(
                                lowercase(names@[i]@),
                            ) == Some(res->Ok_0.spec_config().preferred_types@[i])
                        &&& res->Ok_0.spec_checkers() == checkers_for(res->Ok_0.spec_config())
                    }
                    &&& res is Err ==> exists|k: int|
                        0 <= k < names@.len() && !known_name(names@[k]@) && (forall|i: int|
                            0 <= i < k ==> known_name(#[trigger] names@[i]@))
                            && (res->Err_0 matches OptionsError::UnsupportedType(n) && n@
                            == names@[k]@)
                },
            }
        },
{
    let cs = chars_of(concurrency);
    let c = match parse_unsigned(cs.as_slice(), usize::MAX as u64) {
        Ok(v) => v as usize,
        Err(e) => return Err(OptionsError::InvalidConcurrency(e)),
    };
    let ts = chars_of(timeout);
    let t = match parse_unsigned(ts.as_slice(), u64::MAX) {
        Ok(v) => v,
        Err(e) => return Err(OptionsError::InvalidTimeout(e)),
    };
    let mut builder = Scanner::builder().with_concurrency(c).with_timeout(Duration::from_secs(t));
    match types {
        Some(names) => {
            match types_from_names(&names) {
                Ok(list) => {
                    builder = builder.with_preferred_types(list);
                },
                Err(k) => {
                    let name = names[k].clone();
                    return Err(OptionsError::UnsupportedType(name));
                },
            }
        },
        None => {},
    }
    Ok(builder.build())
}

} // verus!
