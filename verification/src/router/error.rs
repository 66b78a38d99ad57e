//! The API error type and its HTTP mapping.
use vstd::prelude::*;
use crate::common::text::{join2, owned};
use crate::database::error::{DatabaseError, database_error_text};
use crate::apps::error::AppError as DomainError;

verus! {

/// What a handler fails with; each variant maps to one HTTP status.
pub enum AppError {
    BadRequest(String),
    Unauthorized(String),
    Forbidden(String),
    NotFound(String),
    Conflict(String),
    /// An upstream (pool or database) is briefly unavailable.
    BadGateway(String),
    ServiceUnavailable(String),
    /// The request body went over the upload limit.
    PayloadTooLarge,
    /// A server-side failure; holds the full cause, which only goes to the log.
    Internal(String),
}

/// The HTTP status of each variant.
pub open spec fn status_of(e: AppError) -> u16 {
    match e {
        AppError::BadRequest(_) => 400,
        AppError::Unauthorized(_) => 401,
        AppError::Forbidden(_) => 403,
        AppError::NotFound(_) => 404,
        AppError::Conflict(_) => 409,
        AppError::BadGateway(_) => 502,
        AppError::ServiceUnavailable(_) => 503,
        AppError::PayloadTooLarge => 413,
        AppError::Internal(_) => 500,
    }
}

/// The text of each variant, as its `Display` gives it.
pub open spec fn error_text(e: AppError) -> Seq<char> {
    match e {
        AppError::BadRequest(m) => "bad request: "@ + m@,
        AppError::Unauthorized(m) => "unauthorized: "@ + m@,
        AppError::Forbidden(m) => "forbidden: "@ + m@,
        AppError::NotFound(m) => "not found: "@ + m@,
        AppError::Conflict(m) => "conflict: "@ + m@,
        AppError::BadGateway(m) => "bad gateway: "@ + m@,
        AppError::ServiceUnavailable(m) => "service unavailable: "@ + m@,
        AppError::PayloadTooLarge => "payload too large"@,
        AppError::Internal(m) => "internal error: "@ + m@,
    }
}

/// The message a client sees: server-side failures (5xx) show a fixed text, so that
/// database errors and internal paths stay in the log.
pub open spec fn client_message(e: AppError) -> Seq<char> {
    if status_of(e) >= 500 {
        "internal error"@
    } else {
        error_text(e)
    }
}

/// `e` is `BadRequest` with message `m`.
pub open spec fn bad_request(e: AppError, m: Seq<char>) -> bool {
    e matches AppError::BadRequest(t) && t@ == m
}

/// `e` is `NotFound` with message `m`.
pub open spec fn not_found(e: AppError, m: Seq<char>) -> bool {
    e matches AppError::NotFound(t) && t@ == m
}

/// `e` is `Conflict` with message `m`.
pub open spec fn conflict(e: AppError, m: Seq<char>) -> bool {
    e matches AppError::Conflict(t) && t@ == m
}

/// `e` is `BadGateway` with message `m`.
pub open spec fn bad_gateway(e: AppError, m: Seq<char>) -> bool {
    e matches AppError::BadGateway(t) && t@ == m
}

/// `e` is `ServiceUnavailable` with message `m`.
pub open spec fn unavailable(e: AppError, m: Seq<char>) -> bool {
    e matches AppError::ServiceUnavailable(t) && t@ == m
}

/// `e` is `Internal` with message `m`.
pub open spec fn internal(e: AppError, m: Seq<char>) -> bool {
    e matches AppError::Internal(t) && t@ == m
}

impl AppError {
    /// The HTTP status code.
    pub fn status(&self) -> (code: u16)
        ensures
            code == status_of(*self),
    {
        match self {
            AppError::BadRequest(_) => 400,
            AppError::Unauthorized(_) => 401,
            AppError::Forbidden(_) => 403,
            AppError::NotFound(_) => 404,
            AppError::Conflict(_) => 409,
            AppError::BadGateway(_) => 502,
            AppError::ServiceUnavailable(_) => 503,
            AppError::PayloadTooLarge => 413,
            AppError::Internal(_) => 500,
        }
    }

    /// Whether the status is a server-side failure (5xx).
    pub fn is_server_error(&self) -> (yes: bool)
        ensures
            yes == (status_of(*self) >= 500),
    {
        self.status() >= 500
    }

    /// The error's full text.
    pub fn to_text(&self) -> (out: String)
        ensures
            out@ == error_text(*self),
    {
        match self {
            AppError::BadRequest(m) => join2("bad request: ", m.as_str()),
            AppError::Unauthorized(m) => join2("unauthorized: ", m.as_str()),
            AppError::Forbidden(m) => join2("forbidden: ", m.as_str()),
            AppError::NotFound(m) => join2("not found: ", m.as_str()),
            AppError::Conflict(m) => join2("conflict: ", m.as_str()),
            AppError::BadGateway(m) => join2("bad gateway: ", m.as_str()),
            AppError::ServiceUnavailable(m) => join2("service unavailable: ", m.as_str()),
            AppError::PayloadTooLarge => owned("payload too large"),
            AppError::Internal(m) => join2("internal error: ", m.as_str()),
        }
    }

    /// The message that goes into the response envelope.
    pub fn client_message(&self) -> (out: String)
        ensures
            out@ == client_message(*self),
    {
        if self.is_server_error() {
            owned("internal error")
        } else {
            self.to_text()
        }
    }

    /// Database failures: constraint violations (duplicates, references) are conflicts,
    /// everything else a server-side failure.
    pub fn from_database(e: DatabaseError) -> (out: AppError)
        ensures
            e is Constraint ==> out is Conflict && out->Conflict_0@ == database_error_text(e),
            !(e is Constraint) ==> out is Internal && out->Internal_0@ == database_error_text(e),
    {
        let text = e.to_text();
        match e {
            DatabaseError::Constraint { .. } => AppError::Conflict(text),
            _ => AppError::Internal(text),
        }
    }

    /// Application-management failures: database faults map as [`AppError::from_database`]
    /// maps them (a constraint violation is a conflict), the rest by meaning.
    pub fn from_domain(e: DomainError) -> (out: AppError)
        ensures
            match e {
                DomainError::Database(d) => (d is Constraint ==> out is Conflict && out->Conflict_0@
                    == database_error_text(d)) && (!(d is Constraint) ==> out is Internal
                    && out->Internal_0@ == database_error_text(d)),
                DomainError::NotFound(id) => out is NotFound && out->NotFound_0@ == id@,
                DomainError::AlreadyExists(id) => out is Conflict && out->Conflict_0@ == id@,
            },
    {
        match e {
            DomainError::Database(d) => AppError::from_database(d),
            DomainError::NotFound(id) => AppError::NotFound(id),
            DomainError::AlreadyExists(id) => AppError::Conflict(id),
        }
    }
}

} // verus!
