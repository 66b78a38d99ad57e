//! The wall clock, through `chrono`. Nothing is stated of the values it gives.
use vstd::prelude::*;

verus! {

/// The current time as RFC 3339 text (`Utc::now().to_rfc3339()`).
#[verifier::external_body]
pub(crate) fn now_rfc3339() -> String {
    chrono::Utc::now().to_rfc3339()
}

/// The current time in microseconds since the Unix epoch (`Utc::now().timestamp_micros()`).
#[verifier::external_body]
pub(crate) fn now_micros() -> i64 {
    chrono::Utc::now().timestamp_micros()
}

} // verus!
