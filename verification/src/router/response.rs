//! The JSON envelope every endpoint answers with, success and failure alike.
use vstd::prelude::*;
use crate::common::clock::now_rfc3339;
use crate::common::text::owned;

verus! {

/// The outer shape of every response body.
pub struct Envelope<T> {
    /// The same as the HTTP status code.
    pub code: u16,
    pub message: String,
    /// `None` (JSON null) on failure.
    pub data: Option<T>,
    /// RFC 3339.
    pub timestamp: String,
}

/// A success answer: the handler's data, sent as `{ code: 200, data }`.
pub struct ApiOk<T>(pub T);

/// The standard reason phrase of an HTTP status code (`StatusCode::canonical_reason`),
/// `None` for codes without one or outside 100..=999.
pub uninterp spec fn reason_phrase(code: u16) -> Option<Seq<char>>;

/// The reason phrase of `code`, through `http::StatusCode`.
#[verifier::external_body]
fn canonical_reason(code: u16) -> (r: Option<String>)
    ensures
        match r {
            Some(s) => reason_phrase(code) == Some(s@),
            None => reason_phrase(code) is None,
        },
{
    match axum::http::StatusCode::from_u16(code) {
        Ok(status) => status.canonical_reason().map(|t| t.to_string()),
        Err(_) => None,
    }
}

/// The message [`with_status`] gives: the reason phrase, or `ok` without one.
pub open spec fn status_message(code: u16) -> Seq<char> {
    match reason_phrase(code) {
        Some(p) => p,
        None => "ok"@,
    }
}

impl<T> Envelope<T> {
    /// An envelope stamped with the given time.
    pub fn stamped(code: u16, message: String, data: Option<T>, timestamp: String) -> (e: Envelope<T>)
        ensures
            e.code == code,
            e.message == message,
            e.data == data,
            e.timestamp == timestamp,
    {
        Envelope { code, message, data, timestamp }
    }

    /// An envelope stamped with the current time.
    pub fn new(code: u16, message: String, data: Option<T>) -> (e: Envelope<T>)
        ensures
            e.code == code,
            e.message == message,
            e.data == data,
    {
        Envelope::stamped(code, message, data, now_rfc3339())
    }

    /// `200 ok` with `data`.
    pub fn ok(data: T) -> (e: Envelope<T>)
        ensures
            e.code == 200,
            e.message@ == "ok"@,
            e.data == Some(data),
    {
        Envelope::new(200, owned("ok"), Some(data))
    }
}

impl Envelope<()> {
    /// An envelope without data (errors and bare status answers).
    pub fn message(code: u16, message: String) -> (e: Envelope<()>)
        ensures
            e.code == code,
            e.message == message,
            e.data is None,
    {
        Envelope::new(code, message, None)
    }
}

/// A success answer with another status (such as 201 Created), its message the status's
/// reason phrase.
pub fn with_status<T>(code: u16, data: T) -> (e: Envelope<T>)
    ensures
        e.code == code,
        e.message@ == status_message(code),
        e.data == Some(data),
{
    let message = match canonical_reason(code) {
        Some(p) => p,
        None => owned("ok"),
    };
    Envelope::new(code, message, Some(data))
}

/// The answer to a request no route matches: shaped like every other error.
pub fn route_not_found() -> (e: Envelope<()>)
    ensures
        e.code == 404,
        e.message@ == "route not found"@,
        e.data is None,
{
    Envelope::message(404, owned("route not found"))
}

} // verus!
