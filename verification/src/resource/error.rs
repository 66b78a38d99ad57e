//! Errors of the storage layer.
use vstd::prelude::*;
use crate::common::text::join2;

verus! {

/// A storage failure; outside errors are held by their text.
#[derive(Debug)]
pub enum PoolError {
    S3(String),
    Ftp(String),
    ListParse(String),
    Io(String),
    Config(String),
    NotFound(String),
}

/// The text of a [`PoolError`], as its `Display` gives it.
pub open spec fn pool_error_text(e: PoolError) -> Seq<char> {
    match e {
        PoolError::S3(m) => "s3 error: "@ + m@,
        PoolError::Ftp(m) => "ftp error: "@ + m@,
        PoolError::ListParse(m) => "ftp list parse error: "@ + m@,
        PoolError::Io(m) => "io error: "@ + m@,
        PoolError::Config(m) => "invalid config: "@ + m@,
        PoolError::NotFound(m) => "pool not found: "@ + m@,
    }
}

impl PoolError {
    /// The error's text.
    pub fn to_text(&self) -> (out: String)
        ensures
            out@ == pool_error_text(*self),
    {
        match self {
            PoolError::S3(m) => join2("s3 error: ", m.as_str()),
            PoolError::Ftp(m) => join2("ftp error: ", m.as_str()),
            PoolError::ListParse(m) => join2("ftp list parse error: ", m.as_str()),
            PoolError::Io(m) => join2("io error: ", m.as_str()),
            PoolError::Config(m) => join2("invalid config: ", m.as_str()),
            PoolError::NotFound(m) => join2("pool not found: ", m.as_str()),
        }
    }
}

} // verus!
