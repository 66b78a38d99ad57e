//! Administration endpoints. The whole subtree requires `X-Admin-Key` (see `auth`); public
//! endpoints never live here, so that no unauthenticated route joins this tree and no
//! administrative power leaks to the public side.
pub mod announces;
pub mod apps;
pub mod channels;
pub mod pools;
pub mod resources;

use vstd::prelude::*;
use crate::common::ids::{new_v4, parse_uuid, random_uuid, uuid_parse_error, uuid_parsed};
use crate::common::text::{decimal, decimal_text, join2, join3, owned, push_text};
use crate::router::config::rng_unavailable;
use crate::resource::key::{invalid_sha256_message, is_sha256_text, normalize_sha256, normalized, object_key};
use crate::router::error::{AppError, bad_request, internal};

verus! {

/// A fresh random v4 UUID for a new record; an internal error when the random source
/// fails.
pub fn fresh_guid() -> (r: Result<u128, AppError>)
    ensures
        match r {
            Ok(id) => exists|b: Seq<u8>| b.len() == 16 && id == random_uuid(b),
            Err(e) => internal(e, rng_unavailable()),
        },
{
    match new_v4() {
        Some(id) => Ok(id),
        None => Err(AppError::Internal(owned("os rng unavailable"))),
    }
}

/// What `/admin/reload` answers.
pub open spec fn reload_text(apps: nat, pools: nat) -> Seq<char> {
    "reloaded "@ + decimal(apps) + " apps, "@ + decimal(pools) + " pools"@
}

/// `reloaded <apps> apps, <pools> pools`.
pub fn reload_message(apps: usize, pools: usize) -> (out: String)
    ensures
        out@ == reload_text(apps as nat, pools as nat),
{
    let a = decimal_text(apps as u64);
    let p = decimal_text(pools as u64);
    let mut out = join3("reloaded ", a.as_str(), " apps, ");
    push_text(&mut out, p.as_str());
    push_text(&mut out, " pools");
    out
}

/// A reload step that failed (`what` is `apps` or `pools`): a server-side failure.
pub fn reload_failure(what: &str, cause: &str) -> (e: AppError)
    ensures
        internal(e, "reload "@ + what@ + " failed: "@ + cause@),
{
    let mut m = join3("reload ", what, " failed: ");
    push_text(&mut m, cause);
    AppError::Internal(m)
}

/// A sha256 in a request must be 64 hex characters; otherwise a bad request carrying the
/// key error's message.
pub fn validate_sha256(sha256: &str) -> (r: Result<(), AppError>)
    ensures
        is_sha256_text(sha256@) ==> r is Ok,
        !is_sha256_text(sha256@) ==> (r matches Err(e) && bad_request(e, invalid_sha256_message(sha256@))),
{
    match object_key(sha256) {
        Ok(_) => Ok(()),
        Err(e) => Err(AppError::BadRequest(e.message())),
    }
}

/// A sha256 in a path or body, folded to its normal form (trimmed, lower case); one that
/// is not 64 hex characters after folding is a bad request carrying the key error.
pub fn normalized_sha256(raw: &str) -> (r: Result<String, AppError>)
    ensures
        match r {
            Ok(s) => is_sha256_text(normalized(raw@)) && s@ == normalized(raw@),
            Err(e) => !is_sha256_text(normalized(raw@)) && bad_request(
                e,
                invalid_sha256_message(normalized(raw@)),
            ),
        },
{
    match normalize_sha256(raw) {
        Ok(s) => Ok(s),
        Err(e) => Err(AppError::BadRequest(e.message())),
    }
}

/// The optional `app_id` filter of a listing: absent is no filter, an unparsable one a
/// bad request carrying the parser's message.
pub fn parse_app_filter(raw: Option<&str>) -> (r: Result<Option<u128>, AppError>)
    ensures
        match raw {
            None => r == Ok::<Option<u128>, AppError>(None),
            Some(t) => match uuid_parsed(t@) {
                Some(id) => r == Ok::<Option<u128>, AppError>(Some(id)),
                None => r matches Err(e) && bad_request(e, "invalid app_id: "@ + uuid_parse_error(t@)),
            },
        },
{
    match raw {
        None => Ok(None),
        Some(t) => match parse_uuid(t) {
            Ok(id) => Ok(Some(id)),
            Err(msg) => Err(AppError::BadRequest(join2("invalid app_id: ", msg.as_str()))),
        },
    }
}

/// A resource named in a request must exist: otherwise a bad request (rather than a
/// foreign-key failure turned into a conflict).
pub fn require_resource(sha256: &str, exists: bool) -> (r: Result<(), AppError>)
    ensures
        exists ==> r is Ok,
        !exists ==> (r matches Err(e) && bad_request(e, "resource "@ + sha256@ + " does not exist"@)),
{
    if exists {
        Ok(())
    } else {
        Err(AppError::BadRequest(join3("resource ", sha256, " does not exist")))
    }
}

} // verus!
