//! Resource administration: the local library only. Uploads always land locally (with an
//! optional display name); which pools hold a resource is the pools' business.
use vstd::prelude::*;
use crate::common::text::{join2, owned, trim, trimmed, is_hex_char, str_eq};
use crate::database::error::{DatabaseError, database_error_text};
use crate::database::repo::{ResourceDetail, ResourceRow};
use crate::resource::digest::{ContentHasher, absorbed, sha256_of};
use crate::resource::key::{is_sha256_text, normalize_sha256, normalized, object_key, object_key_text};
use crate::router::auth::{hex_encode, hex_text, hex_digit};
use crate::router::error::{AppError, bad_request, conflict, internal, not_found};
use crate::router::routes::admin::pools::in_pools;

verus! {

/// A resource in the listing.
pub struct ResourceView {
    pub sha256: String,
    pub size: i64,
    pub name: Option<String>,
    /// Microseconds since the Unix epoch.
    pub created_at: i64,
    /// The pools that hold it.
    pub pools: Vec<String>,
}

/// A resource in detail.
pub struct ResourceDetailView {
    pub sha256: String,
    pub size: i64,
    pub name: Option<String>,
    pub created_at: i64,
    pub pools: Vec<String>,
    /// Names of the apps that reference it.
    pub ref_apps: Vec<String>,
}

/// The listing filter.
pub struct ListParams {
    /// Only resources held by this pool.
    pub pool: Option<String>,
    /// Exactly this sha256 (folded first; an invalid one filters nothing).
    pub sha256: Option<String>,
}

/// The query of an upload.
pub struct UploadParams {
    /// Optional display name, only for the administration's eyes.
    pub name: Option<String>,
}

/// What an upload answers.
pub struct UploadedView {
    pub sha256: String,
    pub size: u64,
    pub name: Option<String>,
}

/// A new display name; an empty one (after trimming) or none clears it.
pub struct RenameRequest {
    pub name: Option<String>,
}

/// A display name as stored: trimmed, and nothing when that leaves it empty.
pub open spec fn display_name_of(name: Option<Seq<char>>) -> Option<Seq<char>> {
    match name {
        None => None,
        Some(n) => if trimmed(n).len() == 0 {
            None
        } else {
            Some(trimmed(n))
        },
    }
}

/// The view of an optional string.
pub open spec fn opt_view(s: Option<String>) -> Option<Seq<char>> {
    match s {
        Some(t) => Some(t@),
        None => None,
    }
}

/// A display name from a request: trimmed, and `None` when that leaves it empty.
pub fn display_name(name: Option<&str>) -> (out: Option<String>)
    ensures
        opt_view(out) == display_name_of(match name {
            Some(n) => Some(n@),
            None => None,
        }),
{
    match name {
        None => None,
        Some(n) => {
            let t = trim(n);
            if t.as_str().is_empty() {
                None
            } else {
                Some(t)
            }
        },
    }
}

/// The sha256 a listing filters on: the given one folded, when that is valid.
pub open spec fn wanted_sha(params: ListParams) -> Option<Seq<char>> {
    match params.sha256 {
        Some(s) => if is_sha256_text(normalized(s@)) {
            Some(normalized(s@))
        } else {
            None
        },
        None => None,
    }
}

/// Whether a row passes the listing filter.
pub open spec fn listed(row: ResourceRow, params: ListParams) -> bool {
    &&& params.pool matches Some(p) ==> in_pools(row.pools@, p@)
    &&& wanted_sha(params) matches Some(s) ==> row.sha256@ == s
}

/// The rows a listing keeps, in order.
pub open spec fn kept(rows: Seq<ResourceRow>, params: ListParams) -> Seq<ResourceRow> {
    rows.filter(|r: ResourceRow| listed(r, params))
}

/// Row `r` is in the pool a listing asks for, if it asks for one.
pub open spec fn in_requested_pool(r: ResourceRow, params: ListParams) -> bool {
    match params.pool {
        Some(p) => in_pools(r.pools@, p@),
        None => true,
    }
}

/// Row `r` is the sha256 a listing asks for (trimmed, lower-cased), if it asks for a
/// valid one.
pub open spec fn is_requested_sha(r: ResourceRow, params: ListParams) -> bool {
    match params.sha256 {
        Some(s) => is_sha256_text(normalized(s@)) ==> r.sha256@ == normalized(s@),
        None => true,
    }
}

/// Every listed resource passes every filter given, each on its own: it is in the
/// requested pool whether or not a sha256 is also asked for, and it is the requested
/// sha256 when that is a valid one. Every row passing them all is listed.
pub proof fn law_listing_meets_every_filter(rows: Seq<ResourceRow>, params: ListParams)
    ensures
        forall|i: int|
            0 <= i < kept(rows, params).len() ==> in_requested_pool(
                #[trigger] kept(rows, params)[i],
                params,
            ) && is_requested_sha(kept(rows, params)[i], params),
        forall|j: int|
            0 <= j < rows.len() && in_requested_pool(rows[j], params) && is_requested_sha(
                rows[j],
                params,
            ) ==> kept(rows, params).contains(#[trigger] rows[j]),
{
    let pred = |r: ResourceRow| listed(r, params);
    assert forall|i: int| 0 <= i < kept(rows, params).len() implies in_requested_pool(
        #[trigger] kept(rows, params)[i],
        params,
    ) && is_requested_sha(kept(rows, params)[i], params) by {
        rows.lemma_filter_pred(pred, i);
    }
    assert forall|j: int|
        0 <= j < rows.len() && in_requested_pool(rows[j], params) && is_requested_sha(
            rows[j],
            params,
        ) implies kept(rows, params).contains(#[trigger] rows[j]) by {
        assert(listed(rows[j], params));
        rows.lemma_filter_contains(pred, j);
    }
}

/// `v` shows row `r`.
pub open spec fn shows_resource(v: ResourceView, r: ResourceRow) -> bool {
    v.sha256 == r.sha256 && v.size == r.size && v.name == r.name && v.created_at == r.created_at
        && v.pools == r.pools
}

/// Whether `id` is among `pools`.
fn holds(pools: &Vec<String>, id: &str) -> (yes: bool)
    ensures
        yes == in_pools(pools@, id@),
{
    let mut i: usize = 0;
    while i < pools.len()
        invariant
            i <= pools@.len(),
            forall|j: int| 0 <= j < i ==> pools@[j]@ != id@,
        decreases pools@.len() - i,
    {
        if str_eq(pools[i].as_str(), id) {
            assert(pools@[i as int]@ == id@);
            return true;
        }
        i += 1;
    }
    false
}

/// The listing: the rows that pass the filter, in order.
pub fn filter_resources(rows: Vec<ResourceRow>, params: &ListParams) -> (out: Vec<ResourceView>)
    ensures
        out@.len() == kept(rows@, *params).len(),
        forall|i: int| 0 <= i < out@.len() ==> shows_resource(#[trigger] out@[i], kept(rows@, *params)[i]),
{
    let wanted: Option<String> = match &params.sha256 {
        Some(s) => match normalize_sha256(s.as_str()) {
            Ok(n) => Some(n),
            Err(_) => None,
        },
        None => None,
    };
    assert(opt_view(wanted) == wanted_sha(*params));
    let ghost all = rows@;
    let mut rest = rows;
    let mut done: usize = 0;
    let n: usize = rest.len();
    let mut out: Vec<ResourceView> = Vec::new();
    while rest.len() > 0
        invariant
            all.len() == n,
            done <= n,
            opt_view(wanted) == wanted_sha(*params),
            rest@ == all.subrange(done as int, all.len() as int),
            out@.len() == kept(all.take(done as int), *params).len(),
            forall|i: int|
                0 <= i < out@.len() ==> shows_resource(#[trigger] out@[i], kept(all.take(done as int), *params)[i]),
        decreases rest@.len(),
    {
        let r = rest.remove(0);
        proof {
            assert(r == all[done as int]);
            assert(all.take(done + 1).drop_last() =~= all.take(done as int));
            assert(all.take(done + 1).last() == r);
            reveal_with_fuel(Seq::filter, 1);
        }
        let in_pool = match &params.pool {
            Some(p) => holds(&r.pools, p.as_str()),
            None => true,
        };
        let same_sha = match &wanted {
            Some(s) => str_eq(r.sha256.as_str(), s.as_str()),
            None => true,
        };
        if in_pool && same_sha {
            out.push(ResourceView {
                sha256: r.sha256,
                size: r.size,
                name: r.name,
                created_at: r.created_at,
                pools: r.pools,
            });
        }
        done = done + 1;
    }
    assert(all.take(n as int) =~= all);
    out
}

/// Every digit of a hex rendering is a hex character.
proof fn lemma_hex_text_is_hex(bytes: Seq<u8>)
    ensures
        forall|i: int| 0 <= i < hex_text(bytes).len() ==> is_hex_char(#[trigger] hex_text(bytes)[i]),
{
    assert forall|i: int| 0 <= i < hex_text(bytes).len() implies is_hex_char(#[trigger] hex_text(bytes)[i]) by {
        let b = bytes[i / 2];
        assert(b >> 4 < 16) by (bit_vector);
        assert(b & 0x0f < 16) by (bit_vector);
    }
}

/// The sha256 text and object key of an upload, from the hasher that took in its body:
/// the lower-case hex of the SHA-256 of exactly the bytes absorbed.
pub fn uploaded_sha(hasher: ContentHasher) -> (r: (String, String))
    ensures
        r.0@ == hex_text(sha256_of(absorbed(hasher))),
        is_sha256_text(r.0@),
        r.1@ == object_key_text(r.0@),
{
    let digest = hasher.digest();
    let sha = hex_encode(digest.as_slice());
    proof {
        lemma_hex_text_is_hex(digest@);
    }
    let key = match object_key(sha.as_str()) {
        Ok(k) => k,
        Err(_) => {
            assert(false);
            String::new()
        },
    };
    (sha, key)
}

/// An upload whose body could not be read: over the size limit it is too large,
/// otherwise a bad request with the cause.
pub fn read_failure(limit_hit: bool, cause: &str) -> (e: AppError)
    ensures
        limit_hit ==> e is PayloadTooLarge,
        !limit_hit ==> bad_request(e, "upload body read failed: "@ + cause@),
{
    if limit_hit {
        AppError::PayloadTooLarge
    } else {
        AppError::BadRequest(join2("upload body read failed: ", cause))
    }
}

/// The size as the database stores it (`i64`); a larger file is a server-side failure.
pub fn stored_size(size: u64) -> (r: Result<i64, AppError>)
    ensures
        size <= i64::MAX ==> r == Ok::<i64, AppError>(size as i64),
        size > i64::MAX ==> (r matches Err(e) && internal(e, "file too large"@)),
{
    if size <= 0x7fff_ffff_ffff_ffff {
        Ok(size as i64)
    } else {
        Err(AppError::Internal(owned("file too large")))
    }
}

/// The status of an upload: 200 when the content was already known (storage is
/// content-addressed and idempotent), 201 when it is new.
pub fn upload_status(existed: bool) -> (code: u16)
    ensures
        existed ==> code == 200,
        !existed ==> code == 201,
{
    if existed {
        200
    } else {
        201
    }
}

/// The detail of a resource read back; none is `NotFound`.
pub fn detail_view(sha256: &str, row: Option<ResourceDetail>) -> (r: Result<ResourceDetailView, AppError>)
    ensures
        match row {
            Some(d) => r matches Ok(v) && v.sha256 == d.sha256 && v.size == d.size && v.name == d.name
                && v.created_at == d.created_at && v.pools == d.pools && v.ref_apps == d.ref_apps,
            None => r matches Err(e) && not_found(e, "resource "@ + sha256@),
        },
{
    match row {
        Some(d) => Ok(ResourceDetailView {
            sha256: d.sha256,
            size: d.size,
            name: d.name,
            created_at: d.created_at,
            pools: d.pools,
            ref_apps: d.ref_apps,
        }),
        None => Err(AppError::NotFound(join2("resource ", sha256))),
    }
}

/// A rename that matched no row is `NotFound`.
pub fn renamed(sha256: &str, hit: bool) -> (r: Result<(), AppError>)
    ensures
        hit ==> r is Ok,
        !hit ==> (r matches Err(e) && not_found(e, "resource "@ + sha256@)),
{
    if hit {
        Ok(())
    } else {
        Err(AppError::NotFound(join2("resource ", sha256)))
    }
}

/// The resource about to be deleted, or `NotFound` with its sha256.
pub fn to_delete(sha256: &str, row: Option<ResourceRow>) -> (r: Result<ResourceRow, AppError>)
    ensures
        match row {
            Some(row) => r == Ok::<ResourceRow, AppError>(row),
            None => r matches Err(e) && not_found(e, sha256@),
        },
{
    match row {
        Some(row) => Ok(row),
        None => Err(AppError::NotFound(owned(sha256))),
    }
}

/// What deleting the row answers. The row goes first: a reference from an app or a
/// channel (a foreign-key violation) is a conflict and no copy is touched; a row already
/// gone is `NotFound`; other failures map as database errors do.
pub fn deletion_outcome(sha256: &str, result: Result<bool, DatabaseError>) -> (r: Result<(), AppError>)
    ensures
        match result {
            Ok(true) => r is Ok,
            Ok(false) => r matches Err(e) && not_found(e, sha256@),
            Err(DatabaseError::Constraint { .. }) => r matches Err(e) && conflict(
                e,
                "resource "@ + sha256@ + " is referenced by an app or channel"@,
            ),
            Err(d) => r matches Err(e) && internal(e, database_error_text(d)),
        },
{
    match result {
        Ok(true) => Ok(()),
        Ok(false) => Err(AppError::NotFound(owned(sha256))),
        Err(DatabaseError::Constraint { .. }) => Err(AppError::Conflict(
            crate::common::text::join3("resource ", sha256, " is referenced by an app or channel"),
        )),
        Err(d) => Err(AppError::from_database(d)),
    }
}

} // verus!
