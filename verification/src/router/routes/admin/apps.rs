//! App administration: reads go through the `app` rows (which carry `enabled`), writes
//! through the application manager (which keeps its cache in step).
use vstd::prelude::*;
use crate::common::ids::{random_uuid, uuid_display, uuid_text};
use crate::router::routes::admin::fresh_guid;
use crate::database::repo::{AppResourceRow, AppRow, ResourceRow};
use crate::router::config::rng_unavailable;
use crate::router::error::{AppError, bad_request, internal, not_found};

verus! {

/// An app as the administration sees it.
pub struct AppView {
    pub id: u128,
    pub name: String,
    pub enabled: bool,
}

/// A new app; without an id the server draws a v4 UUID.
pub struct CreateAppRequest {
    pub id: Option<u128>,
    pub name: String,
}

/// A change of name and/or enabled flag; `None` fields stay as they are.
pub struct UpdateAppRequest {
    pub name: Option<String>,
    pub enabled: Option<bool>,
}

/// A resource linked to an app.
pub struct AppResourceView {
    pub sha256: String,
    pub size: i64,
}

/// A request to link a resource to an app.
pub struct LinkResourceRequest {
    pub sha256: String,
}

/// A request to link an announcement to an app.
pub struct LinkAnnounceRequest {
    pub guid: u128,
}

/// `v` shows row `r`.
pub open spec fn shows_app(v: AppView, r: AppRow) -> bool {
    v.id == r.id && v.name == r.name && v.enabled == r.enabled
}

impl AppView {
    /// The view of an `app` row.
    pub fn from_row(row: AppRow) -> (v: AppView)
        ensures
            shows_app(v, row),
    {
        AppView { id: row.id, name: row.name, enabled: row.enabled }
    }
}

/// The views of `rows`, in order.
pub fn app_views(rows: Vec<AppRow>) -> (out: Vec<AppView>)
    ensures
        out@.len() == rows@.len(),
        forall|i: int| 0 <= i < out@.len() ==> shows_app(#[trigger] out@[i], rows@[i]),
{
    let ghost all = rows@;
    let mut rest = rows;
    let mut out: Vec<AppView> = Vec::new();
    while rest.len() > 0
        invariant
            out@.len() <= all.len(),
            rest@ == all.subrange(out@.len() as int, all.len() as int),
            forall|i: int| 0 <= i < out@.len() ==> shows_app(#[trigger] out@[i], all[i]),
        decreases rest@.len(),
    {
        let r = rest.remove(0);
        assert(r == all[out@.len() as int]);
        out.push(AppView::from_row(r));
    }
    out
}

/// The id of a new app: the requested one, else a fresh random v4 UUID; an internal
/// error when the random source fails.
pub fn new_app_id(requested: Option<u128>) -> (r: Result<u128, AppError>)
    ensures
        requested matches Some(q) ==> (r matches Ok(id) && id == q),
        requested is None ==> match r {
            Ok(id) => exists|b: Seq<u8>| b.len() == 16 && id == random_uuid(b),
            Err(e) => internal(e, rng_unavailable()),
        },
{
    match requested {
        Some(q) => Ok(q),
        None => fresh_guid(),
    }
}

/// The view of a freshly created app: enabled.
pub fn created_view(id: u128, name: String) -> (v: AppView)
    ensures
        v.id == id && v.name == name && v.enabled,
{
    AppView { id, name, enabled: true }
}

/// The app read back; none is `NotFound` with its id.
pub fn found(id: u128, row: Option<AppRow>) -> (r: Result<AppView, AppError>)
    ensures
        match row {
            Some(row) => r matches Ok(v) && shows_app(v, row),
            None => r matches Err(e) && not_found(e, uuid_display(id)),
        },
{
    match row {
        Some(row) => Ok(AppView::from_row(row)),
        None => Err(AppError::NotFound(uuid_text(id))),
    }
}

/// Operations on an app's links need the app: otherwise `NotFound` with its id.
pub fn ensure_app_exists(id: u128, exists: bool) -> (r: Result<(), AppError>)
    ensures
        exists ==> r is Ok,
        !exists ==> (r matches Err(e) && not_found(e, uuid_display(id))),
{
    if exists {
        Ok(())
    } else {
        Err(AppError::NotFound(uuid_text(id)))
    }
}

/// The views of an app's resources, in order.
pub fn resource_views(rows: Vec<AppResourceRow>) -> (out: Vec<AppResourceView>)
    ensures
        out@.len() == rows@.len(),
        forall|i: int|
            0 <= i < out@.len() ==> (#[trigger] out@[i]).sha256 == rows@[i].sha256 && out@[i].size
                == rows@[i].size,
{
    let ghost all = rows@;
    let mut rest = rows;
    let mut out: Vec<AppResourceView> = Vec::new();
    while rest.len() > 0
        invariant
            out@.len() <= all.len(),
            rest@ == all.subrange(out@.len() as int, all.len() as int),
            forall|i: int|
                0 <= i < out@.len() ==> (#[trigger] out@[i]).sha256 == all[i].sha256 && out@[i].size
                    == all[i].size,
        decreases rest@.len(),
    {
        let r = rest.remove(0);
        assert(r == all[out@.len() as int]);
        out.push(AppResourceView { sha256: r.sha256, size: r.size });
    }
    out
}

/// A resource being linked must exist (checked before inserting, so that a missing one is
/// a bad request rather than a foreign-key failure); the view carries its size.
pub fn linked_resource(sha256: String, row: Option<ResourceRow>) -> (r: Result<AppResourceView, AppError>)
    ensures
        match row {
            Some(row) => r matches Ok(v) && v.sha256 == sha256 && v.size == row.size,
            None => r matches Err(e) && bad_request(e, "resource "@ + sha256@ + " does not exist"@),
        },
{
    match row {
        Some(row) => Ok(AppResourceView { sha256, size: row.size }),
        None => Err(AppError::BadRequest(crate::common::text::join3("resource ", sha256.as_str(), " does not exist"))),
    }
}

/// An unlink that removed nothing is `NotFound` with the sha256.
pub fn unlinked(sha256: String, removed: bool) -> (r: Result<String, AppError>)
    ensures
        removed ==> r == Ok::<String, AppError>(sha256),
        !removed ==> (r matches Err(e) && not_found(e, sha256@)),
{
    if removed {
        Ok(sha256)
    } else {
        Err(AppError::NotFound(sha256))
    }
}

} // verus!
