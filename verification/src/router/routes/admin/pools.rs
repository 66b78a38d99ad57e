//! Pool administration: the `resource_pool` rows hold the settings (endpoints, secret,
//! kind parameters); the runtime tables say whether a pool is connected, up and in sync.
//! A secret only ever appears in write requests, never in an answer.
use vstd::prelude::*;
use crate::common::json::{JsonConfig, JsonField, config_get, config_str};
use crate::common::text::{join2, join3, owned, push_text, starts_with, str_eq, has_prefix};
use crate::database::repo::{PoolResourceRow, PoolRow, PoolStats, ResourceRow};
use crate::resource::health::{HealthStatus, PoolHealth};
use crate::resource::key::{debug_rendering, debug_text};
use crate::resource::pool::ResourcePool;
use crate::router::error::{AppError, bad_gateway, bad_request, conflict, internal, not_found};
use crate::router::pool_sync::{PoolSync, PoolSyncInfo, status_text};
use crate::router::state::PoolMetaMap;

verus! {

/// A pool as the administration sees it: the row, the runtime state and the registered
/// totals. `C` is the kind parameters as the caller holds them.
pub struct PoolView<C> {
    pub id: String,
    pub kind: String,
    pub endpoint: String,
    pub public_endpoint: String,
    /// Kind parameters: bucket/region for S3, root for FTP.
    pub config: C,
    /// Whether downloads may be redirected here.
    pub is_public: bool,
    /// Whether the registry holds a connection.
    pub connected: bool,
    /// Whether the last health probe passed (and the pool is connected).
    pub up: bool,
    pub health_checked_at: Option<i64>,
    pub health_error: Option<String>,
    /// `syncing` / `synced` / `error`, or `unknown`.
    pub sync_status: String,
    /// Pushes still outstanding.
    pub sync_pending: usize,
    pub sync_scanned_at: Option<i64>,
    pub sync_error: Option<String>,
    /// Registered objects and their total size.
    pub object_count: i64,
    pub total_size: i64,
    pub last_write_at: Option<i64>,
}

/// A new pool.
pub struct CreatePoolRequest {
    pub id: String,
    /// `s3` or `ftp`.
    pub kind: String,
    pub endpoint: String,
    pub public_endpoint: String,
    pub secret: String,
    pub config: Option<JsonConfig>,
    /// `true` requires a non-empty `public_endpoint`.
    pub is_public: bool,
}

/// A change of a pool; `None` fields stay as they are.
pub struct UpdatePoolRequest {
    pub endpoint: Option<String>,
    pub public_endpoint: Option<String>,
    pub secret: Option<String>,
    pub config: Option<JsonConfig>,
    pub is_public: Option<bool>,
}

/// A resource in a pool.
pub struct PoolResourceView {
    pub sha256: String,
    pub name: Option<String>,
    pub size: i64,
    /// Microseconds since the Unix epoch.
    pub added_at: i64,
}

/// A request to put a local resource into a pool.
pub struct AddResourceRequest {
    pub sha256: String,
}

/// `v` is the full view of `row` (its parameters held as `config`) given the registry,
/// the health table, the sync states and the pool's registered totals.
pub open spec fn composed<C, P>(
    v: PoolView<C>,
    row: PoolRow,
    config: C,
    registry: Map<Seq<char>, P>,
    health: Map<Seq<char>, HealthStatus>,
    sync: Map<Seq<char>, PoolSyncInfo>,
    stat: Option<PoolStats>,
) -> bool {
    let id = row.id@;
    let connected = registry.contains_key(id);
    &&& v.id == row.id && v.kind == row.kind && v.endpoint == row.endpoint
    &&& v.public_endpoint == row.public_endpoint && v.config == config && v.is_public == row.is_public
    &&& v.connected == connected
    &&& v.up == (connected && health.contains_key(id) && health[id].up)
    &&& v.health_checked_at == (if health.contains_key(id) { Some(health[id].checked_at) } else { None })
    &&& v.health_error == (if health.contains_key(id) { health[id].error } else { None })
    &&& v.sync_status@ == (if sync.contains_key(id) { status_text(sync[id].status) } else { "unknown"@ })
    &&& v.sync_pending == (if sync.contains_key(id) { sync[id].pending } else { 0 })
    &&& v.sync_scanned_at == (if sync.contains_key(id) { sync[id].scanned_at } else { None })
    &&& v.sync_error == (if sync.contains_key(id) { sync[id].error } else { None })
    &&& v.object_count == (match stat { Some(s) => s.object_count, None => 0 })
    &&& v.total_size == (match stat { Some(s) => s.total_size, None => 0 })
    &&& v.last_write_at == (match stat { Some(s) => s.last_write_at, None => None })
}

/// The full view of a pool row.
pub fn compose<C, P>(
    row: PoolRow,
    config: C,
    registry: &ResourcePool<P>,
    health: &PoolHealth,
    sync: &PoolSync,
    stat: Option<&PoolStats>,
) -> (v: PoolView<C>)
    ensures
        composed(v, row, config, registry@, health.table(), sync.states(), match stat {
            Some(s) => Some(*s),
            None => None,
        }),
{
    let connected = registry.get(row.id.as_str()).is_some();
    let (up, health_checked_at, health_error) = match health.status(row.id.as_str()) {
        Some(h) => (connected && h.up, Some(h.checked_at), h.clone().error),
        None => (false, None, None),
    };
    let (sync_status, sync_pending, sync_scanned_at, sync_error) = match sync.status(row.id.as_str()) {
        Some(s) => (owned(s.status.as_str()), s.pending, s.scanned_at, s.clone().error),
        None => (owned("unknown"), 0, None, None),
    };
    let (object_count, total_size, last_write_at) = match stat {
        Some(s) => (s.object_count, s.total_size, s.last_write_at),
        None => (0, 0, None),
    };
    PoolView {
        id: row.id,
        kind: row.kind,
        endpoint: row.endpoint,
        public_endpoint: row.public_endpoint,
        config,
        is_public: row.is_public,
        connected,
        up,
        health_checked_at,
        health_error,
        sync_status,
        sync_pending,
        sync_scanned_at,
        sync_error,
        object_count,
        total_size,
        last_write_at,
    }
}

/// The view of a freshly created pool: nothing connected, probed, synced or registered yet.
pub fn created_view<C>(body: CreatePoolRequest, config: C) -> (v: PoolView<C>)
    ensures
        v.id == body.id && v.kind == body.kind && v.endpoint == body.endpoint,
        v.public_endpoint == body.public_endpoint && v.config == config && v.is_public == body.is_public,
        !v.connected && !v.up && v.health_checked_at is None && v.health_error is None,
        v.sync_status@ == "unknown"@ && v.sync_pending == 0 && v.sync_scanned_at is None && v.sync_error is None,
        v.object_count == 0 && v.total_size == 0 && v.last_write_at is None,
{
    PoolView {
        id: body.id,
        kind: body.kind,
        endpoint: body.endpoint,
        public_endpoint: body.public_endpoint,
        config,
        is_public: body.is_public,
        connected: false,
        up: false,
        health_checked_at: None,
        health_error: None,
        sync_status: owned("unknown"),
        sync_pending: 0,
        sync_scanned_at: None,
        sync_error: None,
        object_count: 0,
        total_size: 0,
        last_write_at: None,
    }
}

/// A pool kind must be `s3` or `ftp`.
pub fn validate_kind(kind: &str) -> (r: Result<(), AppError>)
    ensures
        (kind@ == "s3"@ || kind@ == "ftp"@) ==> r is Ok,
        !(kind@ == "s3"@ || kind@ == "ftp"@) ==> (r matches Err(e) && bad_request(
            e,
            "invalid pool kind "@ + debug_rendering(kind@) + ", expected s3 or ftp"@,
        )),
{
    if str_eq(kind, "s3") || str_eq(kind, "ftp") {
        Ok(())
    } else {
        let quoted = debug_text(kind);
        Err(AppError::BadRequest(join3("invalid pool kind ", quoted.as_str(), ", expected s3 or ftp")))
    }
}

/// What is wrong with a public endpoint, if anything: one that is given must be an http or
/// https URL, and a public pool must have one.
pub open spec fn endpoint_problem(endpoint: Seq<char>, is_public: bool) -> Option<Seq<char>> {
    if endpoint.len() == 0 {
        if is_public {
            Some("is_public requires a non-empty public_endpoint"@)
        } else {
            None
        }
    } else if !has_prefix(endpoint, "http://"@) && !has_prefix(endpoint, "https://"@) {
        Some("public_endpoint must start with http:// or https://"@)
    } else {
        None
    }
}

/// Checks a public endpoint (the database has the same rule; this answers 400 first).
pub fn validate_public_endpoint(endpoint: &str, is_public: bool) -> (r: Result<(), AppError>)
    ensures
        match endpoint_problem(endpoint@, is_public) {
            None => r is Ok,
            Some(m) => r matches Err(e) && bad_request(e, m),
        },
{
    if endpoint.is_empty() {
        return if is_public {
            Err(AppError::BadRequest(owned("is_public requires a non-empty public_endpoint")))
        } else {
            Ok(())
        };
    }
    if !starts_with(endpoint, "http://") && !starts_with(endpoint, "https://") {
        return Err(AppError::BadRequest(owned("public_endpoint must start with http:// or https://")));
    }
    Ok(())
}

/// Member `key` of `c` is a non-empty string.
pub open spec fn has_text(c: JsonConfig, key: Seq<char>) -> bool {
    config_str(c, key) matches Some(s) && s.len() > 0
}

/// The message for a missing required member.
pub open spec fn requires_text(kind: Seq<char>, key: Seq<char>) -> Seq<char> {
    kind + " pool requires config."@ + key
}

/// What is wrong with a pool's parameters for its kind, if anything: they must form an
/// object; S3 needs `bucket`, `region` and `access_key` (non-empty strings, in that order)
/// and a boolean `path_style` if any; FTP needs `user` and a numeric `port` if any.
pub open spec fn config_problem(kind: Seq<char>, c: JsonConfig) -> Option<Seq<char>> {
    if c.members is None {
        Some("config must be a JSON object"@)
    } else if kind == "s3"@ {
        if !has_text(c, "bucket"@) {
            Some(requires_text(kind, "bucket"@))
        } else if !has_text(c, "region"@) {
            Some(requires_text(kind, "region"@))
        } else if !has_text(c, "access_key"@) {
            Some(requires_text(kind, "access_key"@))
        } else if config_get(c, "path_style"@) matches Some(f) && !(f is Bool) {
            Some("s3 pool config.path_style must be a boolean"@)
        } else {
            None
        }
    } else if kind == "ftp"@ {
        if !has_text(c, "user"@) {
            Some(requires_text(kind, "user"@))
        } else if config_get(c, "port"@) matches Some(f) && !(f is Number) {
            Some("ftp pool config.port must be a number"@)
        } else {
            None
        }
    } else {
        None
    }
}

/// An accepted pool configuration is an object holding every member its kind needs: an
/// S3 pool a non-empty `bucket`, `region` and `access_key` (and a boolean `path_style`, if
/// any), an FTP pool a non-empty `user` (and a numeric `port`, if any). A missing member
/// is refused by name, the first one missing in that order.
pub proof fn law_accepted_config_is_complete(kind: Seq<char>, c: JsonConfig)
    ensures
        config_problem(kind, c) is None ==> c.members is Some,
        kind == "s3"@ && config_problem(kind, c) is None ==> has_text(c, "bucket"@) && has_text(
            c,
            "region"@,
        ) && has_text(c, "access_key"@) && !(config_get(c, "path_style"@) matches Some(f) && !(
        f is Bool)),
        kind == "ftp"@ && config_problem(kind, c) is None ==> has_text(c, "user"@) && !(config_get(
            c,
            "port"@,
        ) matches Some(f) && !(f is Number)),
        kind == "s3"@ && c.members is Some && has_text(c, "bucket"@) && has_text(c, "region"@)
            && !has_text(c, "access_key"@) ==> config_problem(kind, c) == Some(
            "s3 pool requires config.access_key"@,
        ),
        kind == "ftp"@ && c.members is Some && !has_text(c, "user"@) ==> config_problem(kind, c)
            == Some("ftp pool requires config.user"@),
{
    reveal_strlit("s3");
    reveal_strlit("ftp");
    assert("s3"@.len() != "ftp"@.len());
    assert("s3"@ + " pool requires config."@ + "access_key"@ =~= "s3 pool requires config.access_key"@) by {
        reveal_strlit(" pool requires config.");
        reveal_strlit("access_key");
        reveal_strlit("s3 pool requires config.access_key");
    }
    assert("ftp"@ + " pool requires config."@ + "user"@ =~= "ftp pool requires config.user"@) by {
        reveal_strlit(" pool requires config.");
        reveal_strlit("user");
        reveal_strlit("ftp pool requires config.user");
    }
}

/// Member `key` must be a non-empty string.
fn require_str(kind: &str, config: &JsonConfig, key: &str) -> (r: Result<(), AppError>)
    ensures
        has_text(*config, key@) ==> r is Ok,
        !has_text(*config, key@) ==> (r matches Err(e) && bad_request(e, requires_text(kind@, key@))),
{
    let ok = match config.get(key) {
        Some(JsonField::Str(s)) => !s.as_str().is_empty(),
        _ => false,
    };
    if ok {
        Ok(())
    } else {
        let mut m = join2(kind, " pool requires config.");
        push_text(&mut m, key);
        Err(AppError::BadRequest(m))
    }
}

/// Checks a pool's parameters for its kind, so that a missing one is a 400 now rather than
/// a failed connection at the next reload.
pub fn validate_config(kind: &str, config: &JsonConfig) -> (r: Result<(), AppError>)
    ensures
        match config_problem(kind@, *config) {
            None => r is Ok,
            Some(m) => r matches Err(e) && bad_request(e, m),
        },
{
    proof {
        reveal_strlit("s3");
        reveal_strlit("ftp");
        assert("s3"@.len() != "ftp"@.len());
    }
    if !config.is_object() {
        return Err(AppError::BadRequest(owned("config must be a JSON object")));
    }
    if str_eq(kind, "s3") {
        require_str(kind, config, "bucket")?;
        require_str(kind, config, "region")?;
        require_str(kind, config, "access_key")?;
        match config.get("path_style") {
            Some(JsonField::Bool(_)) | None => {},
            Some(_) => return Err(AppError::BadRequest(owned("s3 pool config.path_style must be a boolean"))),
        }
    } else if str_eq(kind, "ftp") {
        require_str(kind, config, "user")?;
        match config.get("port") {
            Some(JsonField::Number(_)) | None => {},
            Some(_) => return Err(AppError::BadRequest(owned("ftp pool config.port must be a number"))),
        }
    }
    Ok(())
}

/// The parameters a new pool is stored with: those given, else an empty object.
pub fn effective_config(config: Option<JsonConfig>) -> (c: JsonConfig)
    ensures
        match config {
            Some(given) => c == given,
            None => c.members matches Some(m) && m@.len() == 0,
        },
{
    match config {
        Some(c) => c,
        None => JsonConfig::empty_object(),
    }
}

/// The checks of a new pool, before anything is stored: the kind, then its parameters
/// (an empty object when none are given), then the public endpoint.
pub fn check_create(body: &CreatePoolRequest, config: &JsonConfig) -> (r: Result<(), AppError>)
    ensures
        !(body.kind@ == "s3"@ || body.kind@ == "ftp"@) ==> (r matches Err(e) && bad_request(
            e,
            "invalid pool kind "@ + debug_rendering(body.kind@) + ", expected s3 or ftp"@,
        )),
        (body.kind@ == "s3"@ || body.kind@ == "ftp"@) ==> match config_problem(body.kind@, *config) {
            Some(m) => r matches Err(e) && bad_request(e, m),
            None => match endpoint_problem(body.public_endpoint@, body.is_public) {
                Some(m) => r matches Err(e) && bad_request(e, m),
                None => r is Ok,
            },
        },
{
    validate_kind(body.kind.as_str())?;
    validate_config(body.kind.as_str(), config)?;
    validate_public_endpoint(body.public_endpoint.as_str(), body.is_public)
}

/// The public endpoint a pool has after a change.
pub open spec fn effective_endpoint(row: PoolRow, body: UpdatePoolRequest) -> Seq<char> {
    match body.public_endpoint {
        Some(p) => p@,
        None => row.public_endpoint@,
    }
}

/// Whether a pool is public after a change.
pub open spec fn effective_public(row: PoolRow, body: UpdatePoolRequest) -> bool {
    match body.is_public {
        Some(p) => p,
        None => row.is_public,
    }
}

/// The checks of a change to the pool of `row`, before anything is stored: new
/// parameters against the pool's kind, then the endpoint and flag as they will stand
/// (unchanged fields taken from the row).
pub fn check_modify(row: &PoolRow, body: &UpdatePoolRequest) -> (r: Result<(), AppError>)
    ensures
        (body.config matches Some(c) && config_problem(row.kind@, c) is Some) ==> (r matches Err(e)
            && bad_request(e, config_problem(row.kind@, body.config->0)->0)),
        !(body.config matches Some(c) && config_problem(row.kind@, c) is Some) ==> match endpoint_problem(
            effective_endpoint(*row, *body),
            effective_public(*row, *body),
        ) {
            Some(m) => r matches Err(e) && bad_request(e, m),
            None => r is Ok,
        },
{
    if let Some(c) = &body.config {
        validate_config(row.kind.as_str(), c)?;
    }
    let endpoint = match &body.public_endpoint {
        Some(p) => p.as_str(),
        None => row.public_endpoint.as_str(),
    };
    let is_public = match body.is_public {
        Some(p) => p,
        None => row.is_public,
    };
    validate_public_endpoint(endpoint, is_public)
}

/// The pool row, or `NotFound` with the id.
pub fn found(id: &str, row: Option<PoolRow>) -> (r: Result<PoolRow, AppError>)
    ensures
        match row {
            Some(row) => r == Ok::<PoolRow, AppError>(row),
            None => r matches Err(e) && not_found(e, id@),
        },
{
    match row {
        Some(row) => Ok(row),
        None => Err(AppError::NotFound(owned(id))),
    }
}

/// An update or deletion of pool `id` that matched no row is `NotFound` with the id.
pub fn matched(id: String, hit: bool) -> (r: Result<String, AppError>)
    ensures
        hit ==> r == Ok::<String, AppError>(id),
        !hit ==> (r matches Err(e) && not_found(e, id@)),
{
    if hit {
        Ok(id)
    } else {
        Err(AppError::NotFound(id))
    }
}

/// After a pool's row is deleted, every runtime trace goes: its connection, its public
/// settings, its health and its sync state.
pub fn forget_pool<P>(
    id: &str,
    registry: &mut ResourcePool<P>,
    metas: &mut PoolMetaMap,
    health: &mut PoolHealth,
    sync: &mut PoolSync,
)
    ensures
        final(registry)@ == old(registry)@.remove(id@),
        final(metas)@ == old(metas)@.remove(id@),
        final(health).table() == old(health).table().remove(id@),
        final(health).seen() == old(health).seen().remove(id@),
        final(sync).states() == old(sync).states().remove(id@),
        final(sync).known() == old(sync).known().remove(id@),
{
    let _ = registry.remove(id);
    metas.remove(id);
    health.deregister(id);
    sync.deregister(id);
}

/// What the scan request answers right away: each connected pool's sync status, or
/// `unknown` for one without a state yet.
pub fn scan_view<P>(registry: &ResourcePool<P>, sync: &PoolSync) -> (out: Vec<(String, String)>)
    ensures
        out@.len() == registry@.dom().len(),
        forall|i: int, j: int| 0 <= i < j < out@.len() ==> #[trigger] out@[i].0@ != #[trigger] out@[j].0@,
        forall|k: Seq<char>|
            #[trigger] registry@.contains_key(k) ==> exists|i: int| 0 <= i < out@.len() && #[trigger] out@[i].0@ == k,
        forall|i: int|
            0 <= i < out@.len() ==> registry@.contains_key(#[trigger] out@[i].0@) && out@[i].1@ == (
            if sync.states().contains_key(out@[i].0@) {
                status_text(sync.states()[out@[i].0@].status)
            } else {
                "unknown"@
            }),
{
    let ids = registry.ids();
    let mut out: Vec<(String, String)> = Vec::new();
    let mut i: usize = 0;
    while i < ids.len()
        invariant
            i <= ids@.len(),
            out@.len() == i,
            forall|j: int| 0 <= j < i ==> (#[trigger] out@[j]).0 == ids@[j],
            forall|j: int|
                0 <= j < i ==> (#[trigger] out@[j]).1@ == (if sync.states().contains_key(ids@[j]@) {
                    status_text(sync.states()[ids@[j]@].status)
                } else {
                    "unknown"@
                }),
        decreases ids@.len() - i,
    {
        let id = ids[i].clone();
        let status = match sync.status(id.as_str()) {
            Some(s) => owned(s.status.as_str()),
            None => owned("unknown"),
        };
        out.push((id, status));
        i += 1;
    }
    proof {
        assert forall|k: Seq<char>| #[trigger] registry@.contains_key(k) implies exists|j: int|
            0 <= j < out@.len() && #[trigger] out@[j].0@ == k by {
            let j = choose|j: int| 0 <= j < ids@.len() && #[trigger] ids@[j]@ == k;
            assert(out@[j].0 == ids@[j]);
        }
        assert forall|a: int, b: int| 0 <= a < b < out@.len() implies #[trigger] out@[a].0@
            != #[trigger] out@[b].0@ by {
            assert(out@[a].0 == ids@[a]);
            assert(out@[b].0 == ids@[b]);
        }
        assert forall|a: int| 0 <= a < out@.len() implies registry@.contains_key(#[trigger] out@[a].0@)
            by {
            assert(out@[a].0 == ids@[a]);
        }
    }
    out
}

/// The views of a pool's resources, in order.
pub fn resource_views(rows: Vec<PoolResourceRow>) -> (out: Vec<PoolResourceView>)
    ensures
        out@.len() == rows@.len(),
        forall|i: int|
            0 <= i < out@.len() ==> (#[trigger] out@[i]).sha256 == rows@[i].sha256 && out@[i].name
                == rows@[i].name && out@[i].size == rows@[i].size && out@[i].added_at == rows@[i].added_at,
{
    let ghost all = rows@;
    let mut rest = rows;
    let mut out: Vec<PoolResourceView> = Vec::new();
    while rest.len() > 0
        invariant
            out@.len() <= all.len(),
            rest@ == all.subrange(out@.len() as int, all.len() as int),
            forall|i: int|
                0 <= i < out@.len() ==> (#[trigger] out@[i]).sha256 == all[i].sha256 && out@[i].name
                    == all[i].name && out@[i].size == all[i].size && out@[i].added_at == all[i].added_at,
        decreases rest@.len(),
    {
        let r = rest.remove(0);
        assert(r == all[out@.len() as int]);
        out.push(PoolResourceView { sha256: r.sha256, name: r.name, size: r.size, added_at: r.added_at });
    }
    out
}

/// Whether `id` is among `pools`.
pub open spec fn in_pools(pools: Seq<String>, id: Seq<char>) -> bool {
    exists|i: int| 0 <= i < pools.len() && #[trigger] pools[i]@ == id
}

/// Putting resource `sha256` into pool `id`, its row read (`resource`): it must exist, not
/// be in the pool yet, and the pool must be connected.
pub fn admit_resource<P>(id: &str, sha256: &str, resource: Option<ResourceRow>, registry: &ResourcePool<P>) -> (r: Result<(), AppError>)
    ensures
        match resource {
            None => r matches Err(e) && bad_request(e, "resource "@ + sha256@ + " does not exist"@),
            Some(row) => if in_pools(row.pools@, id@) {
                r matches Err(e) && conflict(e, "resource "@ + sha256@ + " already in pool "@ + id@)
            } else if !registry@.contains_key(id@) {
                r matches Err(e) && bad_request(e, "pool "@ + debug_rendering(id@) + " not connected"@)
            } else {
                r is Ok
            },
        },
{
    let row = match resource {
        None => return Err(AppError::BadRequest(join3("resource ", sha256, " does not exist"))),
        Some(row) => row,
    };
    let mut i: usize = 0;
    while i < row.pools.len()
        invariant
            resource == Some(row),
            i <= row.pools@.len(),
            forall|j: int| 0 <= j < i ==> row.pools@[j]@ != id@,
        decreases row.pools@.len() - i,
    {
        if str_eq(row.pools[i].as_str(), id) {
            assert(row.pools@[i as int]@ == id@);
            let mut m = join3("resource ", sha256, " already in pool ");
            push_text(&mut m, id);
            return Err(AppError::Conflict(m));
        }
        i += 1;
    }
    if registry.get(id).is_none() {
        let quoted = debug_text(id);
        return Err(AppError::BadRequest(join3("pool ", quoted.as_str(), " not connected")));
    }
    Ok(())
}

/// The local copy to push could not be read: it has to be uploaded first.
pub fn local_copy_missing(cause: &str) -> (e: AppError)
    ensures
        bad_request(e, "local copy missing, upload first: "@ + cause@),
{
    AppError::BadRequest(join2("local copy missing, upload first: ", cause))
}

/// Pushing to pool `id` failed upstream.
pub fn push_failed(id: &str, cause: &str) -> (e: AppError)
    ensures
        bad_gateway(e, "push to pool "@ + debug_rendering(id@) + " failed: "@ + cause@),
{
    let quoted = debug_text(id);
    let mut m = join3("push to pool ", quoted.as_str(), " failed: ");
    push_text(&mut m, cause);
    AppError::BadGateway(m)
}

/// The resource just added, found in the pool's listing by its sha256 (the first such
/// row); absent, a server-side failure.
pub fn added_view(sha256: &str, rows: Vec<PoolResourceRow>) -> (r: Result<PoolResourceView, AppError>)
    ensures
        (exists|i: int| 0 <= i < rows@.len() && #[trigger] rows@[i].sha256@ == sha256@) ==> (r matches Ok(v)
            && exists|i: int|
            0 <= i < rows@.len() && #[trigger] rows@[i].sha256@ == sha256@ && (forall|j: int|
                0 <= j < i ==> rows@[j].sha256@ != sha256@) && v.sha256 == rows@[i].sha256 && v.name
                == rows@[i].name && v.size == rows@[i].size && v.added_at == rows@[i].added_at),
        !(exists|i: int| 0 <= i < rows@.len() && #[trigger] rows@[i].sha256@ == sha256@) ==> (r matches Err(e)
            && internal(e, "location just inserted"@)),
{
    let ghost all = rows@;
    let mut rest = rows;
    let mut k: usize = 0;
    let n: usize = rest.len();
    while rest.len() > 0
        invariant
            all.len() == n,
            all == rows@,
            k <= n,
            rest@ == all.subrange(k as int, all.len() as int),
            forall|j: int| 0 <= j < k ==> all[j].sha256@ != sha256@,
        decreases rest@.len(),
    {
        let r = rest.remove(0);
        assert(r == all[k as int]);
        if str_eq(r.sha256.as_str(), sha256) {
            assert(all[k as int].sha256@ == sha256@);
            return Ok(PoolResourceView { sha256: r.sha256, name: r.name, size: r.size, added_at: r.added_at });
        }
        k = k + 1;
    }
    Err(AppError::Internal(owned("location just inserted")))
}

/// A removal from pool `id` that matched no registration is `NotFound`.
pub fn removed_from(sha256: String, id: &str, hit: bool) -> (r: Result<String, AppError>)
    ensures
        hit ==> r == Ok::<String, AppError>(sha256),
        !hit ==> (r matches Err(e) && not_found(e, "resource "@ + sha256@ + " not in pool "@ + id@)),
{
    if hit {
        Ok(sha256)
    } else {
        let mut m = join3("resource ", sha256.as_str(), " not in pool ");
        push_text(&mut m, id);
        Err(AppError::NotFound(m))
    }
}

} // verus!
