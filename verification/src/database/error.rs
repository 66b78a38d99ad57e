//! Database errors.
use vstd::prelude::*;
use crate::common::text::{join2, join4, owned, str_eq};

verus! {

/// A database failure.
pub enum DatabaseError {
    /// Connection or statement failure, with the driver's text.
    Connect(String),
    /// A constraint violation (such as a RESTRICT foreign key); `code` is the SQLSTATE.
    Constraint { code: String, message: String },
    /// The connection pool could not hand out a connection.
    Pool(String),
    /// A migration could not be applied.
    Migration(String),
}

/// The text of a [`DatabaseError`].
pub open spec fn database_error_text(e: DatabaseError) -> Seq<char> {
    match e {
        DatabaseError::Connect(m) => "database error: "@ + m@,
        DatabaseError::Constraint { code, message } => "database constraint ("@ + code@ + "): "@
            + message@,
        DatabaseError::Pool(m) => "connection pool error: "@ + m@,
        DatabaseError::Migration(m) => "migration failed: "@ + m@,
    }
}

/// The SQLSTATE codes that count as constraint violations: 23503 (foreign key) and
/// 23505 (unique).
pub open spec fn is_constraint_code(code: Seq<char>) -> bool {
    code == "23503"@ || code == "23505"@
}

impl DatabaseError {
    /// The error's text, as its `Display` gives it.
    pub fn to_text(&self) -> (out: String)
        ensures
            out@ == database_error_text(*self),
    {
        match self {
            DatabaseError::Connect(m) => join2("database error: ", m.as_str()),
            DatabaseError::Constraint { code, message } => {
                let mut out = join4("database constraint (", code.as_str(), "): ", message.as_str());
                out
            },
            DatabaseError::Pool(m) => join2("connection pool error: ", m.as_str()),
            DatabaseError::Migration(m) => join2("migration failed: ", m.as_str()),
        }
    }

    /// Classifies a driver error. `sqlstate` and `db_message` come from the server's error
    /// report when there is one, `db_text` is that report's text, `driver_text` the
    /// driver's own text. Foreign-key and unique violations become `Constraint`.
    pub fn from_driver(
        sqlstate: Option<&str>,
        db_message: &str,
        db_text: &str,
        driver_text: &str,
    ) -> (e: DatabaseError)
        ensures
            match sqlstate {
                Some(code) => if is_constraint_code(code@) {
                    e is Constraint && e->code@ == code@ && e->message@ == db_message@
                } else {
                    e is Connect && e->Connect_0@ == db_text@
                },
                None => e is Connect && e->Connect_0@ == driver_text@,
            },
    {
        match sqlstate {
            Some(code) => {
                if str_eq(code, "23503") || str_eq(code, "23505") {
                    DatabaseError::Constraint { code: owned(code), message: owned(db_message) }
                } else {
                    DatabaseError::Connect(owned(db_text))
                }
            },
            None => DatabaseError::Connect(owned(driver_text)),
        }
    }

    /// Whether this is a constraint violation.
    pub fn is_constraint(&self) -> (yes: bool)
        ensures
            yes == (*self is Constraint),
    {
        match self {
            DatabaseError::Constraint { .. } => true,
            _ => false,
        }
    }
}

} // verus!
