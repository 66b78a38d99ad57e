//! Reading settings from environment-variable values.
use vstd::prelude::*;
use crate::common::num::{int_error_text, parse_unsigned, parse_unsigned_text};
use crate::common::text::{join4, owned};

verus! {

/// `Ok(None)` for an unset variable, the number for a valid one, and
/// `invalid <KEY>: <reason>` otherwise.
pub open spec fn env_number(v: Option<String>, key: Seq<char>, max: nat) -> Result<Option<nat>, Seq<char>> {
    match v {
        None => Ok(None),
        Some(s) => match parse_unsigned(s@, max) {
            Ok(n) => Ok(Some(n)),
            Err(k) => Err("invalid "@ + key + ": "@ + int_error_text(k)),
        },
    }
}

/// The number, or `default` when unset.
pub open spec fn or_default(r: Result<Option<nat>, Seq<char>>, default: nat) -> nat {
    match r {
        Ok(Some(n)) => n,
        _ => default,
    }
}

/// Reads one numeric variable.
pub fn parse_env_number(v: &Option<String>, key: &str, max: u64) -> (r: Result<Option<u64>, String>)
    ensures
        r matches Ok(None) <==> env_number(*v, key@, max as nat) == Ok::<Option<nat>, Seq<char>>(None),
        r matches Ok(Some(x)) ==> env_number(*v, key@, max as nat) == Ok::<Option<nat>, Seq<char>>(Some(x as nat)) && x <= max,
        r matches Err(e) ==> env_number(*v, key@, max as nat) == Err::<Option<nat>, Seq<char>>(e@),
{
    match v {
        None => Ok(None),
        Some(s) => match parse_unsigned_text(s.as_str(), max) {
            Ok(n) => Ok(Some(n)),
            Err(k) => Err(join4("invalid ", key, ": ", k.to_text())),
        },
    }
}

/// The optional text, or `default`.
pub open spec fn text_or(v: Option<String>, default: Seq<char>) -> Seq<char> {
    match v {
        Some(s) => s@,
        None => default,
    }
}

/// A numeric variable, or `default` when unset.
pub fn number_or(v: &Option<String>, key: &str, max: u64, default: u64) -> (r: Result<u64, String>)
    requires
        default <= max,
    ensures
        match env_number(*v, key@, max as nat) {
            Ok(_) => r matches Ok(n) && n == or_default(env_number(*v, key@, max as nat), default as nat) && n <= max,
            Err(m) => r matches Err(e) && e@ == m,
        },
{
    match parse_env_number(v, key, max) {
        Ok(Some(n)) => Ok(n),
        Ok(None) => Ok(default),
        Err(e) => Err(e),
    }
}

/// The text of an optional variable, or `default`.
pub fn text_or_default(v: &Option<String>, default: &str) -> (out: String)
    ensures
        out@ == text_or(*v, default@),
{
    match v {
        Some(s) => s.clone(),
        None => owned(default),
    }
}

} // verus!
