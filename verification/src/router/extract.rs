//! Request header extraction.
use vstd::prelude::*;
use crate::common::ids::{parse_uuid, uuid_parsed};
use crate::common::text::{join2, owned};
use crate::router::error::{AppError, bad_request};

verus! {

/// The header that names the app a client asks about.
pub const APP_ID_HEADER: &'static str = "x-app-id";

/// `X-App-Id: <uuid>`: the app a client request is about.
pub struct AppId(pub u128);

impl AppId {
    /// The app id from the header's value (`None` when the header is missing or not
    /// visible ASCII): a missing header and an unparsable id are both bad requests.
    pub fn from_header(raw: Option<&str>) -> (r: Result<AppId, AppError>)
        ensures
            match raw {
                None => r matches Err(e) && bad_request(e, "missing X-App-Id header"@),
                Some(t) => match uuid_parsed(t@) {
                    Some(id) => r matches Ok(a) && a.0 == id,
                    None => r matches Err(e) && bad_request(e, "invalid X-App-Id header: "@ + t@),
                },
            },
    {
        match raw {
            None => Err(AppError::BadRequest(owned("missing X-App-Id header"))),
            Some(t) => match parse_uuid(t) {
                Ok(id) => Ok(AppId(id)),
                Err(_) => Err(AppError::BadRequest(join2("invalid X-App-Id header: ", t))),
            },
        }
    }
}

} // verus!
