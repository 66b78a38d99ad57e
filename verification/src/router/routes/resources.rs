//! Public downloads. The server never proxies content: the one success is a 302 redirect
//! to a public pool; every other case is a 503 (no pool at all, the resource in no pool,
//! no public pool up).
use vstd::prelude::*;
use crate::common::ids::new_v4;
use crate::common::text::{join2, join3, owned, push_char, push_text, strip_back, strip_end};
use crate::database::repo::{PoolRow, ResourceRow};
use crate::resource::health::{HealthStatus, PoolHealth};
use crate::resource::key::{invalid_sha256_message, is_sha256_text, normalize_sha256, normalized, object_key, object_key_text};
use crate::resource::pool::ResourcePool;
use crate::router::config::rng_unavailable;
use crate::router::error::{AppError, bad_request, internal, not_found, unavailable};
use crate::router::state::{PoolMetaMap, meta_of};

verus! {

/// A pool may serve a download: it is public, connected, and its last probe passed.
pub open spec fn serves<P>(
    id: Seq<char>,
    metas: Map<Seq<char>, (Seq<char>, bool)>,
    registry: Map<Seq<char>, P>,
    health: Map<Seq<char>, HealthStatus>,
) -> bool {
    &&& metas.contains_key(id) && metas[id].1
    &&& registry.contains_key(id)
    &&& health.contains_key(id) && health[id].up
}

/// The pools of `pools` that may serve a download, in order.
pub open spec fn candidates<P>(
    pools: Seq<String>,
    metas: Map<Seq<char>, (Seq<char>, bool)>,
    registry: Map<Seq<char>, P>,
    health: Map<Seq<char>, HealthStatus>,
) -> Seq<Seq<char>>
    decreases pools.len(),
{
    if pools.len() == 0 {
        Seq::empty()
    } else {
        let rest = candidates(pools.drop_last(), metas, registry, health);
        if serves(pools.last()@, metas, registry, health) {
            rest.push(pools.last()@)
        } else {
            rest
        }
    }
}

/// Every candidate may serve.
pub proof fn lemma_candidates_serve<P>(
    pools: Seq<String>,
    metas: Map<Seq<char>, (Seq<char>, bool)>,
    registry: Map<Seq<char>, P>,
    health: Map<Seq<char>, HealthStatus>,
)
    ensures
        forall|k: int|
            0 <= k < candidates(pools, metas, registry, health).len() ==> serves(
                #[trigger] candidates(pools, metas, registry, health)[k],
                metas,
                registry,
                health,
            ),
    decreases pools.len(),
{
    if pools.len() > 0 {
        lemma_candidates_serve(pools.drop_last(), metas, registry, health);
        let rest = candidates(pools.drop_last(), metas, registry, health);
        let all = candidates(pools, metas, registry, health);
        assert forall|k: int| 0 <= k < all.len() implies serves(#[trigger] all[k], metas, registry, health) by {
            if k < rest.len() {
                assert(all[k] == rest[k]);
            }
        }
    }
}

/// Recording a pool's row decides its download role by the row's own flag: a pool whose
/// row is not public never serves a download, whatever its public endpoint; a public one
/// serves exactly while it is connected and up, and downloads go to its public endpoint.
pub proof fn law_recorded_pool_serves_by_its_flag<P>(
    row: PoolRow,
    metas: Map<Seq<char>, (Seq<char>, bool)>,
    registry: Map<Seq<char>, P>,
    health: Map<Seq<char>, HealthStatus>,
)
    ensures
        !row.is_public ==> !serves(row.id@, metas.insert(row.id@, meta_of(row)), registry, health),
        row.is_public ==> (serves(row.id@, metas.insert(row.id@, meta_of(row)), registry, health)
            <==> registry.contains_key(row.id@) && health.contains_key(row.id@) && health[row.id@].up),
        metas.insert(row.id@, meta_of(row))[row.id@].0 == row.public_endpoint@,
{
}

/// Where a download of object `key` is sent on a pool with public endpoint `endpoint`.
pub open spec fn redirect_text(endpoint: Seq<char>, key: Seq<char>) -> Seq<char> {
    strip_back(endpoint, '/') + seq!['/'] + key
}

/// The object key a download names: that of the sha256 trimmed and folded to lower case,
/// as every handler normalizes it; or the bad request that refuses it.
pub fn fetch_key(sha256: &str) -> (r: Result<String, AppError>)
    ensures
        match r {
            Ok(key) => is_sha256_text(normalized(sha256@)) && key@ == object_key_text(
                normalized(sha256@),
            ),
            Err(e) => !is_sha256_text(normalized(sha256@)) && bad_request(
                e,
                invalid_sha256_message(normalized(sha256@)),
            ),
        },
{
    match normalize_sha256(sha256) {
        Ok(sha) => match object_key(sha.as_str()) {
            Ok(key) => Ok(key),
            Err(e) => Err(AppError::BadRequest(e.message())),
        },
        Err(e) => Err(AppError::BadRequest(e.message())),
    }
}

/// One of `candidates`, chosen by `random` (uniformly, for a uniform `random`); `None`
/// when there are none.
pub fn pick(candidates: &Vec<String>, random: u128) -> (r: Option<&String>)
    ensures
        candidates@.len() == 0 ==> r is None,
        candidates@.len() > 0 ==> r == Some(&candidates@[(random as int) % (candidates@.len() as int)]),
{
    if candidates.len() == 0 {
        return None;
    }
    let n: u128 = candidates.len() as u128;
    let index = (random % n) as usize;
    Some(&candidates[index])
}

/// The error of a download whose resource row was read (`row`), or `Ok` when a candidate
/// exists; every failure is an unavailability except a missing resource.
pub open spec fn fetch_refusal<P>(
    sha256: Seq<char>,
    row: Option<ResourceRow>,
    metas: Map<Seq<char>, (Seq<char>, bool)>,
    registry: Map<Seq<char>, P>,
    health: Map<Seq<char>, HealthStatus>,
    e: AppError,
) -> bool {
    match row {
        None => not_found(e, "resource "@ + sha256),
        Some(row) => if registry.dom().len() == 0 {
            unavailable(e, "no storage pool available, download unavailable"@)
        } else if row.pools@.len() == 0 {
            unavailable(e, "resource "@ + sha256 + " is not stored in any pool"@)
        } else {
            unavailable(e, "no public storage pool available, download unavailable"@)
        },
    }
}

/// A download can be served: the row exists, pools are registered, the resource is in
/// one, and one of its pools may serve.
pub open spec fn fetch_servable<P>(
    row: Option<ResourceRow>,
    metas: Map<Seq<char>, (Seq<char>, bool)>,
    registry: Map<Seq<char>, P>,
    health: Map<Seq<char>, HealthStatus>,
) -> bool {
    row matches Some(row) && registry.dom().len() > 0 && row.pools@.len() > 0 && candidates(
        row.pools@,
        metas,
        registry,
        health,
    ).len() > 0
}

/// The redirect target of a download of `sha256`, its resource row read (`row`, looked up
/// by the normalized sha256): a pool chosen by `random` among the candidates, in the order
/// of the row, and the object key of the normalized sha256 on it.
pub fn fetch_with<P>(
    sha256: &str,
    row: Option<ResourceRow>,
    registry: &ResourcePool<P>,
    metas: &PoolMetaMap,
    health: &PoolHealth,
    random: u128,
) -> (r: Result<String, AppError>)
    ensures
        !is_sha256_text(normalized(sha256@)) ==> (r matches Err(e) && bad_request(
            e,
            invalid_sha256_message(normalized(sha256@)),
        )),
        is_sha256_text(normalized(sha256@)) && !fetch_servable(row, metas@, registry@, health.table())
            ==> (r matches Err(e) && fetch_refusal(
            normalized(sha256@),
            row,
            metas@,
            registry@,
            health.table(),
            e,
        )),
        is_sha256_text(normalized(sha256@)) && fetch_servable(row, metas@, registry@, health.table())
            ==> ({
            let c = candidates(row->0.pools@, metas@, registry@, health.table());
            r matches Ok(target) && target@ == redirect_text(
                metas@[c[(random as int) % (c.len() as int)]].0,
                object_key_text(normalized(sha256@)),
            )
        }),
{
    let sha = match normalize_sha256(sha256) {
        Ok(s) => s,
        Err(e) => return Err(AppError::BadRequest(e.message())),
    };
    let key = match object_key(sha.as_str()) {
        Ok(k) => k,
        Err(e) => return Err(AppError::BadRequest(e.message())),
    };
    let row = match row {
        None => return Err(AppError::NotFound(join2("resource ", sha.as_str()))),
        Some(row) => row,
    };
    if registry.count() == 0 {
        return Err(AppError::ServiceUnavailable(owned("no storage pool available, download unavailable")));
    }
    if row.pools.len() == 0 {
        return Err(AppError::ServiceUnavailable(join3("resource ", sha.as_str(), " is not stored in any pool")));
    }
    let mut chosen: Vec<String> = Vec::new();
    let mut i: usize = 0;
    while i < row.pools.len()
        invariant
            i <= row.pools@.len(),
            chosen@.len() == candidates(row.pools@.take(i as int), metas@, registry@, health.table()).len(),
            forall|j: int|
                0 <= j < chosen@.len() ==> (#[trigger] chosen@[j])@ == candidates(
                    row.pools@.take(i as int),
                    metas@,
                    registry@,
                    health.table(),
                )[j],
        decreases row.pools@.len() - i,
    {
        let id = &row.pools[i];
        proof {
            assert(row.pools@.take(i + 1).drop_last() =~= row.pools@.take(i as int));
            assert(row.pools@.take(i + 1).last() == row.pools@[i as int]);
        }
        let public = match metas.get(id.as_str()) {
            Some(m) => m.is_public,
            None => false,
        };
        let up = match health.status(id.as_str()) {
            Some(h) => h.up,
            None => false,
        };
        if public && registry.get(id.as_str()).is_some() && up {
            chosen.push(id.clone());
        }
        i += 1;
    }
    assert(row.pools@.take(row.pools@.len() as int) =~= row.pools@);
    let ghost c = candidates(row.pools@, metas@, registry@, health.table());
    proof {
        lemma_candidates_serve(row.pools@, metas@, registry@, health.table());
    }
    match pick(&chosen, random) {
        None => Err(AppError::ServiceUnavailable(owned("no public storage pool available, download unavailable"))),
        Some(id) => {
            proof {
                let k = (random as int) % (c.len() as int);
                assert(chosen@[k]@ == c[k]);
                assert(serves(c[k], metas@, registry@, health.table()));
            }
            let endpoint = match metas.get(id.as_str()) {
                Some(m) => m.public_endpoint,
                None => String::new(),
            };
            let mut target = strip_end(endpoint.as_str(), '/');
            push_char(&mut target, '/');
            push_text(&mut target, key.as_str());
            Ok(target)
        },
    }
}

/// The redirect target of a download, the pool drawn at random (a v4 UUID) among the
/// candidates: whichever is drawn, it is one of them. When the random source fails, a
/// download that could be served is an internal error; every refusal stays as it is.
pub fn fetch<P>(
    sha256: &str,
    row: Option<ResourceRow>,
    registry: &ResourcePool<P>,
    metas: &PoolMetaMap,
    health: &PoolHealth,
) -> (r: Result<String, AppError>)
    ensures
        !is_sha256_text(normalized(sha256@)) ==> (r matches Err(e) && bad_request(
            e,
            invalid_sha256_message(normalized(sha256@)),
        )),
        is_sha256_text(normalized(sha256@)) && !fetch_servable(row, metas@, registry@, health.table())
            ==> (r matches Err(e) && fetch_refusal(
            normalized(sha256@),
            row,
            metas@,
            registry@,
            health.table(),
            e,
        )),
        is_sha256_text(normalized(sha256@)) && fetch_servable(row, metas@, registry@, health.table())
            ==> ({
            let c = candidates(row->0.pools@, metas@, registry@, health.table());
            match r {
                Ok(target) => exists|k: int|
                    0 <= k < c.len() && target@ == redirect_text(
                        #[trigger] metas@[c[k]].0,
                        object_key_text(normalized(sha256@)),
                    ),
                Err(e) => internal(e, rng_unavailable()),
            }
        }),
{
    let drawn = new_v4();
    let random: u128 = match drawn {
        Some(v) => v,
        None => 0,
    };
    let ghost row_copy = row;
    let r = fetch_with(sha256, row, registry, metas, health, random);
    proof {
        if is_sha256_text(normalized(sha256@)) && fetch_servable(row_copy, metas@, registry@, health.table()) {
            let c = candidates(row_copy->0.pools@, metas@, registry@, health.table());
            let k = (random as int) % (c.len() as int);
            assert(0 <= k < c.len());
        }
    }
    match r {
        Ok(target) => match drawn {
            Some(_) => Ok(target),
            None => Err(AppError::Internal(owned("os rng unavailable"))),
        },
        Err(e) => Err(e),
    }
}

} // verus!
