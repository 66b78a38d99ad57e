//! Errors of application management.
use vstd::prelude::*;
use crate::common::text::join3;
use crate::database::error::{DatabaseError, database_error_text};

verus! {

/// Failure of an application-management operation.
pub enum AppError {
    Database(DatabaseError),
    /// No such app; holds the app id's text.
    NotFound(String),
    /// The app id is taken; holds the app id's text.
    AlreadyExists(String),
}

/// The text of an [`AppError`].
pub open spec fn app_error_text(e: AppError) -> Seq<char> {
    match e {
        AppError::Database(d) => "database error: "@ + database_error_text(d),
        AppError::NotFound(id) => "app "@ + id@ + " not found"@,
        AppError::AlreadyExists(id) => "app "@ + id@ + " already exists"@,
    }
}

impl AppError {
    /// The error's text, as its `Display` gives it.
    pub fn to_text(&self) -> (out: String)
        ensures
            out@ == app_error_text(*self),
    {
        match self {
            AppError::Database(d) => {
                let inner = d.to_text();
                crate::common::text::join2("database error: ", inner.as_str())
            },
            AppError::NotFound(id) => join3("app ", id.as_str(), " not found"),
            AppError::AlreadyExists(id) => join3("app ", id.as_str(), " already exists"),
        }
    }
}

} // verus!
