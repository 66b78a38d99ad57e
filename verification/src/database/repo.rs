//! The shapes of the rows the repositories read. Times are microseconds since the Unix
//! epoch; sha256 values are lower-case hex (the database's `encode(.., 'hex')`).
use vstd::prelude::*;
use crate::common::strmap::StrMap;
use crate::common::strset::StrSet;
use crate::common::json::JsonConfig;

verus! {

/// A row of `app`.
pub struct AppRow {
    pub id: u128,
    pub name: String,
    pub enabled: bool,
}

/// A row of `resource_pool`: a pool's settings. `secret` is the S3 secret key or the FTP
/// password as stored (possibly sealed); `config` holds the kind's own parameters.
pub struct PoolRow {
    pub id: String,
    pub kind: String,
    pub endpoint: String,
    pub public_endpoint: String,
    pub secret: String,
    pub config: JsonConfig,
    /// Whether downloads may be redirected to this pool.
    pub is_public: bool,
}

/// A channel with its latest package's size.
pub struct ChannelRow {
    pub guid: u128,
    pub app_id: u128,
    pub tag_name: String,
    pub latest_version: String,
    pub raw_sha256: String,
    pub raw_size: i64,
    pub is_default: bool,
}

/// A diff of a channel.
pub struct DiffRow {
    pub base_sha256: String,
    pub patch_sha256: String,
    pub algo: Option<String>,
    pub size: i64,
}

/// A release of a channel.
pub struct ReleaseRow {
    pub version: String,
    pub sha256: String,
    pub created_at: i64,
}

/// An announcement with the names of the apps that reference it.
pub struct AnnounceRow {
    pub guid: u128,
    pub title: String,
    pub content: String,
    pub starts_at: Option<i64>,
    pub expires_at: Option<i64>,
    pub created_at: i64,
    pub updated_at: i64,
    pub ref_apps: Vec<String>,
}

/// A resource with the pools it is registered in.
pub struct ResourceRow {
    pub sha256: String,
    pub size: i64,
    pub name: Option<String>,
    pub created_at: i64,
    pub pools: Vec<String>,
}

/// A resource with its pools and the names of the apps that reference it.
pub struct ResourceDetail {
    pub sha256: String,
    pub size: i64,
    pub name: Option<String>,
    pub created_at: i64,
    pub pools: Vec<String>,
    pub ref_apps: Vec<String>,
}

/// An object registered in a pool.
pub struct PoolResourceRow {
    pub sha256: String,
    pub name: Option<String>,
    pub size: i64,
    pub added_at: i64,
}

/// A resource referenced by an app.
pub struct AppResourceRow {
    pub sha256: String,
    pub size: i64,
}

/// What a pool's registrations add up to.
pub struct PoolStats {
    pub object_count: i64,
    pub total_size: i64,
    pub last_write_at: Option<i64>,
}

/// The `(pool, sha256)` pairs grouped by pool: each pool's wanted set.
pub open spec fn grouped(rows: Seq<(String, String)>) -> Map<Seq<char>, Set<Seq<char>>> {
    Map::new(
        |p: Seq<char>| exists|i: int| 0 <= i < rows.len() && #[trigger] rows[i].0@ == p,
        |p: Seq<char>| Set::new(|s: Seq<char>| exists|i: int| 0 <= i < rows.len() && #[trigger] rows[i].0@ == p && rows[i].1@ == s),
    )
}

/// Groups `(pool, sha256)` location rows by pool.
pub fn group_by_pool(rows: &Vec<(String, String)>) -> (m: StrMap<StrSet>)
    ensures
        forall|p: Seq<char>| m@.contains_key(p) <==> grouped(rows@).contains_key(p),
        forall|p: Seq<char>| #[trigger] m@.contains_key(p) ==> m@[p]@ == grouped(rows@)[p],
{
    let mut m: StrMap<StrSet> = StrMap::new();
    let mut i: usize = 0;
    while i < rows.len()
        invariant
            i <= rows.len(),
            forall|p: Seq<char>| m@.contains_key(p) <==> grouped(rows@.subrange(0, i as int)).contains_key(p),
            forall|p: Seq<char>| #[trigger] m@.contains_key(p) ==> m@[p]@ == grouped(rows@.subrange(0, i as int))[p],
        decreases rows.len() - i,
    {
        let (pool, sha) = (&rows[i].0, &rows[i].1);
        let mut set = match m.remove(pool.as_str()) {
            Some(s) => s,
            None => StrSet::new(),
        };
        let ghost before = set@;
        let _ = set.insert(sha.clone());
        let ghost mid = m@;
        let _ = m.insert(pool.clone(), set);
        proof {
            let prev = rows@.subrange(0, i as int);
            let next = rows@.subrange(0, i + 1);
            assert forall|p: Seq<char>| m@.contains_key(p) <==> grouped(next).contains_key(p) by {
                if p == pool@ {
                    assert(next[i as int].0@ == p);
                } else {
                    if grouped(next).contains_key(p) {
                        let k = choose|k: int| 0 <= k < next.len() && #[trigger] next[k].0@ == p;
                        assert(prev[k] == next[k]);
                    }
                    if grouped(prev).contains_key(p) {
                        let k = choose|k: int| 0 <= k < prev.len() && #[trigger] prev[k].0@ == p;
                        assert(prev[k] == next[k]);
                    }
                }
            }
            assert forall|p: Seq<char>| #[trigger] m@.contains_key(p) implies m@[p]@ == grouped(next)[p] by {
                let g = grouped(next)[p];
                let gp = if grouped(prev).contains_key(p) { grouped(prev)[p] } else { Set::empty() };
                if p == pool@ {
                    assert(g =~= gp.insert(sha@)) by {
                        assert forall|s: Seq<char>| g.contains(s) implies gp.insert(sha@).contains(s) by {
                            let k = choose|k: int| 0 <= k < next.len() && #[trigger] next[k].0@ == p && next[k].1@ == s;
                            if k < i {
                                assert(prev[k] == next[k]);
                                assert(grouped(prev).contains_key(p));
                            }
                        }
                        assert forall|s: Seq<char>| gp.insert(sha@).contains(s) implies g.contains(s) by {
                            if s == sha@ {
                                assert(next[i as int].0@ == p && next[i as int].1@ == s);
                            } else {
                                let k = choose|k: int| 0 <= k < prev.len() && #[trigger] prev[k].0@ == p && prev[k].1@ == s;
                                assert(prev[k] == next[k]);
                            }
                        }
                    }
                } else {
                    assert(mid.contains_key(p));
                    assert(g =~= grouped(prev)[p]) by {
                        assert forall|s: Seq<char>| g.contains(s) implies grouped(prev)[p].contains(s) by {
                            let k = choose|k: int| 0 <= k < next.len() && #[trigger] next[k].0@ == p && next[k].1@ == s;
                            assert(prev[k] == next[k]);
                        }
                        assert forall|s: Seq<char>| grouped(prev)[p].contains(s) implies g.contains(s) by {
                            let k = choose|k: int| 0 <= k < prev.len() && #[trigger] prev[k].0@ == p && prev[k].1@ == s;
                            assert(prev[k] == next[k]);
                        }
                    }
                }
            }
        }
        i += 1;
    }
    assert(rows@.subrange(0, rows.len() as int) =~= rows@);
    m
}

} // verus!
