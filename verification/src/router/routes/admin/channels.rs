//! Channel, release and diff administration. A channel's `latest_sha256` must name an
//! existing resource, so resources come first, channels after.
use vstd::prelude::*;
use crate::common::ids::{uuid_display, uuid_text};
use crate::common::text::{join3, owned, str_eq};
use crate::database::repo::{ChannelRow, DiffRow, ReleaseRow};
use crate::resource::key::{invalid_sha256_message, is_sha256_text};
use crate::router::error::{AppError, bad_request, not_found};
use crate::router::routes::admin::validate_sha256;

verus! {

/// A channel as the administration sees it.
pub struct ChannelView {
    pub guid: u128,
    pub app_id: u128,
    pub tag_name: String,
    pub latest_version: String,
    pub raw_sha256: String,
    pub raw_size: u64,
    pub is_default: bool,
}

/// A new channel; `latest_sha256` (hex) must name an existing resource.
pub struct CreateChannelRequest {
    pub app_id: u128,
    pub tag_name: String,
    pub latest_version: String,
    pub latest_sha256: String,
    pub is_default: bool,
}

/// A change of a channel; `None` fields stay as they are.
pub struct UpdateChannelRequest {
    pub tag_name: Option<String>,
    pub latest_version: Option<String>,
    pub latest_sha256: Option<String>,
    pub is_default: Option<bool>,
}

/// A new release record.
pub struct CreateReleaseRequest {
    pub version: String,
    pub sha256: String,
}

/// A new diff; `size` is 0 when not given.
pub struct CreateDiffRequest {
    pub base_sha256: String,
    pub patch_sha256: String,
    pub algo: Option<String>,
    pub size: i64,
}

/// The listing filter.
pub struct ListParams {
    /// Only this app's channels (the top-level page passes none).
    pub app_id: Option<String>,
}

/// A release record as the administration sees it.
pub struct ReleaseView {
    pub version: String,
    pub sha256: String,
    /// Microseconds since the Unix epoch.
    pub created_at: i64,
}

/// A diff as the administration sees it.
pub struct DiffView {
    pub base_sha256: String,
    pub patch_sha256: String,
    pub algo: Option<String>,
    pub size: i64,
}

/// `v` shows row `r`.
pub open spec fn shows_channel(v: ChannelView, r: ChannelRow) -> bool {
    &&& v.guid == r.guid && v.app_id == r.app_id && v.tag_name == r.tag_name
    &&& v.latest_version == r.latest_version && v.raw_sha256 == r.raw_sha256
    &&& v.raw_size == r.raw_size as u64 && v.is_default == r.is_default
}

impl ChannelView {
    /// The view of a channel row.
    pub fn from_row(row: ChannelRow) -> (v: ChannelView)
        ensures
            shows_channel(v, row),
    {
        ChannelView {
            guid: row.guid,
            app_id: row.app_id,
            tag_name: row.tag_name,
            latest_version: row.latest_version,
            raw_sha256: row.raw_sha256,
            raw_size: row.raw_size as u64,
            is_default: row.is_default,
        }
    }
}

/// The rows a filter keeps: all of them, or those of one app, in order.
pub open spec fn kept(rows: Seq<ChannelRow>, app_id: Option<u128>) -> Seq<ChannelRow> {
    match app_id {
        None => rows,
        Some(id) => rows.filter(|r: ChannelRow| r.app_id == id),
    }
}

/// The views of the channels of `rows` that the filter keeps.
pub fn filter_channels(rows: Vec<ChannelRow>, app_id: Option<u128>) -> (out: Vec<ChannelView>)
    ensures
        out@.len() == kept(rows@, app_id).len(),
        forall|i: int| 0 <= i < out@.len() ==> shows_channel(#[trigger] out@[i], kept(rows@, app_id)[i]),
{
    let ghost all = rows@;
    let mut rest = rows;
    let mut done: usize = 0;
    let n: usize = rest.len();
    let mut out: Vec<ChannelView> = Vec::new();
    while rest.len() > 0
        invariant
            all.len() == n,
            done <= n,
            rest@ == all.subrange(done as int, all.len() as int),
            out@.len() == kept(all.take(done as int), app_id).len(),
            forall|i: int|
                0 <= i < out@.len() ==> shows_channel(#[trigger] out@[i], kept(all.take(done as int), app_id)[i]),
        decreases rest@.len(),
    {
        let r = rest.remove(0);
        proof {
            assert(r == all[done as int]);
            assert(all.take(done + 1).drop_last() =~= all.take(done as int));
            assert(all.take(done + 1).last() == r);
            reveal_with_fuel(Seq::filter, 1);
        }
        let keep = match app_id {
            None => true,
            Some(id) => r.app_id == id,
        };
        if keep {
            out.push(ChannelView::from_row(r));
        }
        done = done + 1;
    }
    assert(all.take(n as int) =~= all);
    out
}

/// The channel read back; none is `NotFound` with its guid.
pub fn found(guid: u128, row: Option<ChannelRow>) -> (r: Result<ChannelView, AppError>)
    ensures
        match row {
            Some(row) => r matches Ok(v) && shows_channel(v, row),
            None => r matches Err(e) && not_found(e, uuid_display(guid)),
        },
{
    match row {
        Some(row) => Ok(ChannelView::from_row(row)),
        None => Err(AppError::NotFound(uuid_text(guid))),
    }
}

/// A new channel's app must exist: otherwise a bad request.
pub fn require_app(app_id: u128, exists: bool) -> (r: Result<(), AppError>)
    ensures
        exists ==> r is Ok,
        !exists ==> (r matches Err(e) && bad_request(e, "app "@ + uuid_display(app_id) + " does not exist"@)),
{
    if exists {
        Ok(())
    } else {
        let text = uuid_text(app_id);
        Err(AppError::BadRequest(join3("app ", text.as_str(), " does not exist")))
    }
}

/// An operation on channel `guid` that matched no row (or needs a channel that is not
/// there) is `NotFound` with the guid.
pub fn matched(guid: u128, hit: bool) -> (r: Result<u128, AppError>)
    ensures
        hit ==> r == Ok::<u128, AppError>(guid),
        !hit ==> (r matches Err(e) && not_found(e, uuid_display(guid))),
{
    if hit {
        Ok(guid)
    } else {
        Err(AppError::NotFound(uuid_text(guid)))
    }
}

/// A deletion of a release (by version) or a diff (by base sha256) that matched nothing
/// is `NotFound` with that key.
pub fn deleted(key: String, hit: bool) -> (r: Result<String, AppError>)
    ensures
        hit ==> r == Ok::<String, AppError>(key),
        !hit ==> (r matches Err(e) && not_found(e, key@)),
{
    if hit {
        Ok(key)
    } else {
        Err(AppError::NotFound(key))
    }
}

/// Checks a new diff before anything is read: both sha256 values valid (base first), and
/// distinct.
pub fn validate_diff(body: &CreateDiffRequest) -> (r: Result<(), AppError>)
    ensures
        !is_sha256_text(body.base_sha256@) ==> (r matches Err(e) && bad_request(
            e,
            invalid_sha256_message(body.base_sha256@),
        )),
        is_sha256_text(body.base_sha256@) && !is_sha256_text(body.patch_sha256@) ==> (r matches Err(e)
            && bad_request(e, invalid_sha256_message(body.patch_sha256@))),
        is_sha256_text(body.base_sha256@) && is_sha256_text(body.patch_sha256@) && body.base_sha256@
            == body.patch_sha256@ ==> (r matches Err(e) && bad_request(
            e,
            "base_sha256 与 patch_sha256 不能相同"@,
        )),
        is_sha256_text(body.base_sha256@) && is_sha256_text(body.patch_sha256@) && body.base_sha256@
            != body.patch_sha256@ ==> r is Ok,
{
    validate_sha256(body.base_sha256.as_str())?;
    validate_sha256(body.patch_sha256.as_str())?;
    if str_eq(body.base_sha256.as_str(), body.patch_sha256.as_str()) {
        return Err(AppError::BadRequest(owned("base_sha256 与 patch_sha256 不能相同")));
    }
    Ok(())
}

/// The view of a diff row.
pub fn diff_view(row: DiffRow) -> (v: DiffView)
    ensures
        v.base_sha256 == row.base_sha256 && v.patch_sha256 == row.patch_sha256 && v.algo == row.algo
            && v.size == row.size,
{
    DiffView { base_sha256: row.base_sha256, patch_sha256: row.patch_sha256, algo: row.algo, size: row.size }
}

/// The view of a diff just created from `body`.
pub fn created_diff(body: CreateDiffRequest) -> (v: DiffView)
    ensures
        v.base_sha256 == body.base_sha256 && v.patch_sha256 == body.patch_sha256 && v.algo == body.algo
            && v.size == body.size,
{
    DiffView { base_sha256: body.base_sha256, patch_sha256: body.patch_sha256, algo: body.algo, size: body.size }
}

/// The view of a release row.
pub fn release_view(row: ReleaseRow) -> (v: ReleaseView)
    ensures
        v.version == row.version && v.sha256 == row.sha256 && v.created_at == row.created_at,
{
    ReleaseView { version: row.version, sha256: row.sha256, created_at: row.created_at }
}

/// The view of a release just recorded from `body` at time `now`.
pub fn created_release(body: CreateReleaseRequest, now: i64) -> (v: ReleaseView)
    ensures
        v.version == body.version && v.sha256 == body.sha256 && v.created_at == now,
{
    ReleaseView { version: body.version, sha256: body.sha256, created_at: now }
}

} // verus!
