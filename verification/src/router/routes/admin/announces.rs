//! Announcement administration. Display runs over `[starts_at, expires_at)`, `None`
//! meaning unbounded; the administration sees every announcement (pending and expired
//! too), clients only the visible ones.
use vstd::prelude::*;
use crate::common::clock::now_micros;
use crate::common::ids::{uuid_display, uuid_text};
use crate::common::text::{join3, owned};
use crate::database::repo::AnnounceRow;
use crate::router::error::{AppError, bad_request, not_found};

verus! {

/// An announcement as the administration sees it (times in microseconds since the epoch).
pub struct AnnounceView {
    pub guid: u128,
    pub title: String,
    pub content: String,
    /// Start of display; `None` is unbounded.
    pub starts_at: Option<i64>,
    /// End of display; `None` is unbounded.
    pub expires_at: Option<i64>,
    /// Current visibility: `permanent` / `scheduled` / `active` / `expired`.
    pub status: String,
    pub created_at: i64,
    pub updated_at: i64,
    /// Names of the apps that reference it.
    pub ref_apps: Vec<String>,
}

/// A new announcement.
pub struct CreateAnnounceRequest {
    pub title: String,
    pub content: String,
    pub starts_at: Option<i64>,
    pub expires_at: Option<i64>,
}

/// A whole replacement: the four fields come together, `None` clearing a bound, so that
/// "clear to unbounded" and "leave as is" are never confused.
pub struct UpdateAnnounceRequest {
    pub title: String,
    pub content: String,
    pub starts_at: Option<i64>,
    pub expires_at: Option<i64>,
}

/// The listing filter.
pub struct ListParams {
    /// Only the announcements of this app.
    pub app_id: Option<String>,
}

/// The visibility of a display window at time `now`.
pub open spec fn visibility_text(starts_at: Option<i64>, expires_at: Option<i64>, now: i64) -> Seq<char> {
    match (starts_at, expires_at) {
        (None, None) => "permanent"@,
        (Some(s), None) => if now < s { "scheduled"@ } else { "active"@ },
        (None, Some(x)) => if now >= x { "expired"@ } else { "active"@ },
        (Some(s), Some(x)) => if now < s {
            "scheduled"@
        } else if now >= x {
            "expired"@
        } else {
            "active"@
        },
    }
}

/// `permanent` (unbounded), `scheduled` (not started), `active` (showing) or `expired`.
pub fn visibility(starts_at: Option<i64>, expires_at: Option<i64>, now: i64) -> (out: String)
    ensures
        out@ == visibility_text(starts_at, expires_at, now),
{
    match (starts_at, expires_at) {
        (None, None) => owned("permanent"),
        (Some(s), None) => if now < s {
            owned("scheduled")
        } else {
            owned("active")
        },
        (None, Some(x)) => if now >= x {
            owned("expired")
        } else {
            owned("active")
        },
        (Some(s), Some(x)) => if now < s {
            owned("scheduled")
        } else if now >= x {
            owned("expired")
        } else {
            owned("active")
        },
    }
}

/// `v` shows row `r` at time `now`.
pub open spec fn shows_row(v: AnnounceView, r: AnnounceRow, now: i64) -> bool {
    &&& v.guid == r.guid && v.title == r.title && v.content == r.content
    &&& v.starts_at == r.starts_at && v.expires_at == r.expires_at
    &&& v.status@ == visibility_text(r.starts_at, r.expires_at, now)
    &&& v.created_at == r.created_at && v.updated_at == r.updated_at && v.ref_apps == r.ref_apps
}

impl AnnounceView {
    /// The view of a row as of `now`.
    pub fn from_row_at(row: AnnounceRow, now: i64) -> (v: AnnounceView)
        ensures
            shows_row(v, row, now),
    {
        let status = visibility(row.starts_at, row.expires_at, now);
        AnnounceView {
            guid: row.guid,
            title: row.title,
            content: row.content,
            starts_at: row.starts_at,
            expires_at: row.expires_at,
            status,
            created_at: row.created_at,
            updated_at: row.updated_at,
            ref_apps: row.ref_apps,
        }
    }

    /// The view of a row as of the current time.
    pub fn from_row(row: AnnounceRow) -> (v: AnnounceView)
        ensures
            exists|now: i64| shows_row(v, row, now),
    {
        let now = now_micros();
        AnnounceView::from_row_at(row, now)
    }
}

/// The views of `rows` as of `now`, in order.
pub fn views_at(rows: Vec<AnnounceRow>, now: i64) -> (out: Vec<AnnounceView>)
    ensures
        out@.len() == rows@.len(),
        forall|i: int| 0 <= i < out@.len() ==> shows_row(#[trigger] out@[i], rows@[i], now),
{
    let ghost all = rows@;
    let mut rest = rows;
    let mut out: Vec<AnnounceView> = Vec::new();
    while rest.len() > 0
        invariant
            out@.len() <= all.len(),
            rest@ == all.subrange(out@.len() as int, all.len() as int),
            forall|i: int| 0 <= i < out@.len() ==> shows_row(#[trigger] out@[i], all[i], now),
        decreases rest@.len(),
    {
        let r = rest.remove(0);
        assert(r == all[out@.len() as int]);
        out.push(AnnounceView::from_row_at(r, now));
    }
    out
}

/// When both bounds are given the start must come before the end.
pub fn validate_period(starts_at: Option<i64>, expires_at: Option<i64>) -> (r: Result<(), AppError>)
    ensures
        (starts_at matches Some(s) && expires_at matches Some(x) && x <= s) ==> (r matches Err(e)
            && bad_request(e, "expires_at must be after starts_at"@)),
        !(starts_at matches Some(s) && expires_at matches Some(x) && x <= s) ==> r is Ok,
{
    match (starts_at, expires_at) {
        (Some(s), Some(x)) => if x <= s {
            Err(AppError::BadRequest(owned("expires_at must be after starts_at")))
        } else {
            Ok(())
        },
        _ => Ok(()),
    }
}

/// The announcement read back as of `now`; none is `NotFound` with its guid.
pub fn found_at(guid: u128, row: Option<AnnounceRow>, now: i64) -> (r: Result<AnnounceView, AppError>)
    ensures
        match row {
            Some(row) => r matches Ok(v) && shows_row(v, row, now),
            None => r matches Err(e) && not_found(e, uuid_display(guid)),
        },
{
    match row {
        Some(row) => Ok(AnnounceView::from_row_at(row, now)),
        None => Err(AppError::NotFound(uuid_text(guid))),
    }
}

/// An update or deletion that matched no row is `NotFound` with the guid.
pub fn matched(guid: u128, hit: bool) -> (r: Result<u128, AppError>)
    ensures
        hit ==> r == Ok::<u128, AppError>(guid),
        !hit ==> (r matches Err(e) && not_found(e, uuid_display(guid))),
{
    if hit {
        Ok(guid)
    } else {
        Err(AppError::NotFound(uuid_text(guid)))
    }
}

/// An announcement named by a link request must exist: otherwise a bad request.
pub fn linked_at(guid: u128, row: Option<AnnounceRow>, now: i64) -> (r: Result<AnnounceView, AppError>)
    ensures
        match row {
            Some(row) => r matches Ok(v) && shows_row(v, row, now),
            None => r matches Err(e) && bad_request(e, "announce "@ + uuid_display(guid) + " does not exist"@),
        },
{
    match row {
        Some(row) => Ok(AnnounceView::from_row_at(row, now)),
        None => {
            let text = uuid_text(guid);
            Err(AppError::BadRequest(join3("announce ", text.as_str(), " does not exist")))
        },
    }
}

/// An announcement shows over `[starts_at, expires_at)`, a missing bound being no bound:
/// it is `active` exactly when `now` lies in that window, `scheduled` before it, `expired`
/// after it, and `permanent` when it has no bound at all.
pub proof fn law_active_within_window(starts_at: Option<i64>, expires_at: Option<i64>, now: i64)
    ensures
        visibility_text(starts_at, expires_at, now) == "permanent"@ <==> (starts_at is None
            && expires_at is None),
        (starts_at is Some || expires_at is Some) ==> (visibility_text(starts_at, expires_at, now)
            == "active"@ <==> ((starts_at matches Some(s) ==> s <= now) && (expires_at matches Some(x)
            ==> now < x))),
        (starts_at matches Some(s) && now < s) ==> visibility_text(starts_at, expires_at, now)
            == "scheduled"@,
        (expires_at matches Some(x) && x <= now && (starts_at matches Some(s) ==> s <= now))
            ==> visibility_text(starts_at, expires_at, now) == "expired"@,
{
    reveal_strlit("permanent");
    reveal_strlit("active");
    reveal_strlit("scheduled");
    reveal_strlit("expired");
    assert("permanent"@.len() != "active"@.len());
    assert("scheduled"@.len() != "active"@.len());
    assert("expired"@.len() != "active"@.len());
    assert("scheduled"@[0] != "permanent"@[0]);
    assert("expired"@.len() != "permanent"@.len());
}

} // verus!
