//! Pool synchronization: the local complete copy is the truth, and each pool converges to
//! what `resource_location` says it should hold.
//!
//! Model:
//!   * wanted = the `resource_location` rows of a pool;
//!   * known = the objects known to be in the pool (a full scan sets it, every successful
//!     write by this service adds to it);
//!   * missing = wanted − known, pushed from the local copy.
//!
//! Only missing objects are pushed; nothing extra in a pool is removed (known ⊇ wanted
//! is the goal, not equality), so objects placed in a pool by hand are left alone.
use vstd::prelude::*;
use crate::common::order::{lex_lt, sort_strings, strictly_sorted, view_set};
use dashmap::DashMap;
use crate::common::strset::StrSet;
use crate::common::text::{chars_of, is_hex_char, is_hex_digit, push_char};
use crate::resource::key::{is_sha256_chars, is_sha256_text};
use crate::resource::pool::Entry;

verus! {

/// The synchronization state of a pool.
#[derive(Clone, Copy, PartialEq, Eq, Structural)]
pub enum PoolSyncStatus {
    Syncing,
    Synced,
    Error,
}

/// The text of a status.
pub open spec fn status_text(s: PoolSyncStatus) -> Seq<char> {
    match s {
        PoolSyncStatus::Syncing => "syncing"@,
        PoolSyncStatus::Synced => "synced"@,
        PoolSyncStatus::Error => "error"@,
    }
}

impl PoolSyncStatus {
    /// `syncing`, `synced` or `error`.
    pub fn as_str(&self) -> (s: &'static str)
        ensures
            s@ == status_text(*self),
    {
        match self {
            PoolSyncStatus::Syncing => "syncing",
            PoolSyncStatus::Synced => "synced",
            PoolSyncStatus::Error => "error",
        }
    }
}

/// What is known of a pool's synchronization.
pub struct PoolSyncInfo {
    pub status: PoolSyncStatus,
    /// Pushes still outstanding.
    pub pending: usize,
    /// When the last full scan ran, in microseconds since the Unix epoch.
    pub scanned_at: Option<i64>,
    pub error: Option<String>,
}

impl Clone for PoolSyncInfo {
    fn clone(&self) -> (out: PoolSyncInfo)
        ensures
            out == *self,
    {
        let error = match &self.error {
            Some(e) => Some(e.clone()),
            None => None,
        };
        PoolSyncInfo { status: self.status, pending: self.pending, scanned_at: self.scanned_at, error }
    }
}

impl PoolSyncInfo {
    /// A status without an error.
    pub fn new(status: PoolSyncStatus, pending: usize, scanned_at: Option<i64>) -> (i: PoolSyncInfo)
        ensures
            i.status == status,
            i.pending == pending,
            i.scanned_at == scanned_at,
            i.error is None,
    {
        PoolSyncInfo { status, pending, scanned_at, error: None }
    }
}

/// `s` without any `/`.
pub open spec fn without_slashes(s: Seq<char>) -> Seq<char>
    decreases s.len(),
{
    if s.len() == 0 {
        s
    } else if s.last() == '/' {
        without_slashes(s.drop_last())
    } else {
        without_slashes(s.drop_last()).push(s.last())
    }
}

/// `name` with every `/` removed (`str::replace('/', "")`).
pub fn remove_slashes(name: &str) -> (out: String)
    ensures
        out@ == without_slashes(name@),
{
    let chars = chars_of(name);
    let mut out = String::new();
    let mut i: usize = 0;
    while i < chars.len()
        invariant
            i <= chars.len(),
            chars@ == name@,
            out@ == without_slashes(chars@.subrange(0, i as int)),
        decreases chars.len() - i,
    {
        let c = chars[i];
        proof {
            assert(chars@.subrange(0, i + 1).drop_last() =~= chars@.subrange(0, i as int));
        }
        if c != '/' {
            push_char(&mut out, c);
        }
        i += 1;
    }
    assert(chars@.subrange(0, chars.len() as int) =~= chars@);
    out
}

/// The sha256 an object name stands for: the name without its shard slashes, when that is
/// 64 hex characters.
pub open spec fn object_sha(name: Seq<char>) -> Option<Seq<char>> {
    if is_sha256_text(without_slashes(name)) {
        Some(without_slashes(name))
    } else {
        None
    }
}

/// Adds the sha256 that `name` stands for to `found`; other names are ignored.
pub fn collect_sha(found: &mut StrSet, name: &str)
    ensures
        match object_sha(name@) {
            Some(s) => final(found)@ == old(found)@.insert(s),
            None => final(found)@ == old(found)@,
        },
{
    let sha256 = remove_slashes(name);
    let chars = chars_of(sha256.as_str());
    if is_sha256_chars(&chars) {
        let _ = found.insert(sha256);
    }
}

/// A shard directory at the pool root: a directory named by two hex characters.
pub open spec fn is_shard_dir(e: Entry) -> bool {
    &&& e.is_dir
    &&& e.name@.len() == 2
    &&& is_hex_char(e.name@[0])
    &&& is_hex_char(e.name@[1])
}

/// Whether a root entry is a shard directory to descend into.
pub fn shard_dir(e: &Entry) -> (yes: bool)
    ensures
        yes == is_shard_dir(*e),
{
    if !e.is_dir {
        return false;
    }
    let chars = chars_of(e.name.as_str());
    chars.len() == 2 && is_hex_digit(chars[0]) && is_hex_digit(chars[1])
}

/// The objects a scan finds: files at the root, and files one level down inside shard
/// directories. `shard_listings[i]` is the listing of the `i`-th shard directory of
/// `root` (in the order the root lists them).
pub open spec fn found_in(root: Seq<Entry>, shard_listings: Seq<Seq<Entry>>) -> Set<Seq<char>> {
    Set::new(
        |s: Seq<char>|
            (exists|i: int|
                0 <= i < root.len() && !(#[trigger] root[i]).is_dir && object_sha(root[i].name@)
                    == Some(s)) || (exists|j: int, k: int|
                0 <= j < shard_listings.len() && 0 <= k < shard_listings[j].len() && !(
                #[trigger] shard_listings[j][k]).is_dir && object_sha(shard_listings[j][k].name@)
                    == Some(s)),
    )
}

/// The shard directories of a root listing, in listing order: the ones a scan descends
/// into.
pub fn shard_dirs(root: &Vec<Entry>) -> (dirs: Vec<String>)
    ensures
        exists|idx: Seq<int>|
            #![trigger idx.len()]
            {
                &&& idx.len() == dirs@.len()
                &&& forall|k: int| 0 <= k < idx.len() ==> 0 <= #[trigger] idx[k] < root@.len()
                    && is_shard_dir(root@[idx[k]]) && dirs@[k]@ == root@[idx[k]].path@
                &&& forall|a: int, b: int| 0 <= a < b < idx.len() ==> idx[a] < idx[b]
                &&& forall|i: int|
                    0 <= i < root@.len() && is_shard_dir(#[trigger] root@[i]) ==> exists|k: int|
                        0 <= k < idx.len() && idx[k] == i
            },
{
    let mut dirs: Vec<String> = Vec::new();
    let ghost mut idx: Seq<int> = Seq::empty();
    let mut i: usize = 0;
    while i < root.len()
        invariant
            i <= root.len(),
            idx.len() == dirs@.len(),
            forall|k: int| 0 <= k < idx.len() ==> 0 <= #[trigger] idx[k] < i
                && is_shard_dir(root@[idx[k]]) && dirs@[k]@ == root@[idx[k]].path@,
            forall|a: int, b: int| 0 <= a < b < idx.len() ==> idx[a] < idx[b],
            forall|x: int|
                0 <= x < i && is_shard_dir(#[trigger] root@[x]) ==> exists|k: int|
                    0 <= k < idx.len() && idx[k] == x,
        decreases root.len() - i,
    {
        if shard_dir(&root[i]) {
            dirs.push(root[i].path.clone());
            proof {
                let old_idx = idx;
                idx = idx.push(i as int);
                assert forall|x: int| 0 <= x < i + 1 && is_shard_dir(#[trigger] root@[x]) implies exists|k: int|
                    0 <= k < idx.len() && idx[k] == x by {
                    if x == i {
                        assert(idx[idx.len() - 1] == x);
                    } else {
                        let k = choose|k: int| 0 <= k < old_idx.len() && old_idx[k] == x;
                        assert(idx[k] == x);
                    }
                }
            }
        }
        i += 1;
    }
    dirs
}

/// The objects a scan found: the files of the root listing and of the shard listings.
pub fn collect_found(root: &Vec<Entry>, shard_listings: &Vec<Vec<Entry>>) -> (found: StrSet)
    ensures
        found@ == found_in(root@, shard_listings@.map_values(|v: Vec<Entry>| v@)),
{
    let ghost listings = shard_listings@.map_values(|v: Vec<Entry>| v@);
    let mut found = StrSet::new();
    let mut i: usize = 0;
    while i < root.len()
        invariant
            i <= root.len(),
            found@ == Set::new(|s: Seq<char>| exists|x: int|
                0 <= x < i && !(#[trigger] root@[x]).is_dir && object_sha(root@[x].name@) == Some(s)),
        decreases root.len() - i,
    {
        let ghost before = found@;
        if !root[i].is_dir {
            collect_sha(&mut found, root[i].name.as_str());
        }
        assert(found@ =~= Set::new(|s: Seq<char>| exists|x: int|
            0 <= x < i + 1 && !(#[trigger] root@[x]).is_dir && object_sha(root@[x].name@) == Some(s)));
        i += 1;
    }
    let ghost from_root = found@;
    let mut j: usize = 0;
    while j < shard_listings.len()
        invariant
            j <= shard_listings.len(),
            listings == shard_listings@.map_values(|v: Vec<Entry>| v@),
            from_root == Set::new(|s: Seq<char>| exists|x: int|
                0 <= x < root@.len() && !(#[trigger] root@[x]).is_dir && object_sha(root@[x].name@) == Some(s)),
            found@ == from_root.union(Set::new(|s: Seq<char>| exists|a: int, k: int|
                0 <= a < j && 0 <= k < listings[a].len() && !(#[trigger] listings[a][k]).is_dir
                    && object_sha(listings[a][k].name@) == Some(s))),
        decreases shard_listings.len() - j,
    {
        let files = &shard_listings[j];
        assert(files@ == listings[j as int]);
        let mut k: usize = 0;
        while k < files.len()
            invariant
                k <= files.len(),
                j < shard_listings.len(),
                files@ == listings[j as int],
                listings == shard_listings@.map_values(|v: Vec<Entry>| v@),
                found@ == from_root.union(Set::new(|s: Seq<char>| exists|a: int, q: int|
                    0 <= a < j && 0 <= q < listings[a].len() && !(#[trigger] listings[a][q]).is_dir
                        && object_sha(listings[a][q].name@) == Some(s))).union(
                    Set::new(|s: Seq<char>| exists|q: int|
                        0 <= q < k && !(#[trigger] files@[q]).is_dir && object_sha(files@[q].name@) == Some(s))),
            decreases files.len() - k,
        {
            if !files[k].is_dir {
                collect_sha(&mut found, files[k].name.as_str());
            }
            assert(Set::new(|s: Seq<char>| exists|q: int|
                0 <= q < k + 1 && !(#[trigger] files@[q]).is_dir && object_sha(files@[q].name@) == Some(s))
                =~= Set::new(|s: Seq<char>| exists|q: int|
                0 <= q < k && !(#[trigger] files@[q]).is_dir && object_sha(files@[q].name@) == Some(s)).union(
                    if !files@[k as int].is_dir && object_sha(files@[k as int].name@) is Some {
                        set![object_sha(files@[k as int].name@)->0]
                    } else {
                        Set::empty()
                    }));
            k += 1;
        }
        proof {
            let prev = Set::new(|s: Seq<char>| exists|a: int, q: int|
                0 <= a < j && 0 <= q < listings[a].len() && !(#[trigger] listings[a][q]).is_dir
                    && object_sha(listings[a][q].name@) == Some(s));
            let cur = Set::new(|s: Seq<char>| exists|q: int|
                0 <= q < files@.len() && !(#[trigger] files@[q]).is_dir && object_sha(files@[q].name@) == Some(s));
            let next = Set::new(|s: Seq<char>| exists|a: int, q: int|
                0 <= a < j + 1 && 0 <= q < listings[a].len() && !(#[trigger] listings[a][q]).is_dir
                    && object_sha(listings[a][q].name@) == Some(s));
            assert(next =~= prev.union(cur)) by {
                assert forall|s: Seq<char>| next.contains(s) implies prev.union(cur).contains(s) by {
                    let (a, q) = choose|a: int, q: int|
                        0 <= a < j + 1 && 0 <= q < listings[a].len() && !(#[trigger] listings[a][q]).is_dir
                            && object_sha(listings[a][q].name@) == Some(s);
                    if a < j {
                        assert(prev.contains(s));
                    } else {
                        assert(files@[q] == listings[a][q]);
                        assert(cur.contains(s));
                    }
                }
                assert forall|s: Seq<char>| prev.union(cur).contains(s) implies next.contains(s) by {
                    if cur.contains(s) {
                        let q = choose|q: int| 0 <= q < files@.len() && !(#[trigger] files@[q]).is_dir && object_sha(files@[q].name@) == Some(s);
                        assert(listings[j as int][q] == files@[q]);
                    } else {
                        let (a, q) = choose|a: int, q: int|
                            0 <= a < j && 0 <= q < listings[a].len() && !(#[trigger] listings[a][q]).is_dir
                                && object_sha(listings[a][q].name@) == Some(s);
                        assert(0 <= a < j + 1);
                    }
                }
            }
        }
        j += 1;
    }
    assert(found@ =~= found_in(root@, listings));
    found
}

/// What a `DashMap` of sync states holds, by pool id.
pub uninterp spec fn sync_states(m: DashMap<String, PoolSyncInfo>) -> Map<Seq<char>, PoolSyncInfo>;

/// What a `DashMap` of known object sets holds: for each pool id, the set's members.
pub uninterp spec fn known_sets(m: DashMap<String, StrSet>) -> Map<Seq<char>, Set<Seq<char>>>;

/// `DashMap::new`: an empty map.
#[verifier::external_body]
fn states_new() -> (m: DashMap<String, PoolSyncInfo>)
    ensures
        sync_states(m).dom() == Set::<Seq<char>>::empty(),
{
    DashMap::new()
}

/// `DashMap::get`, the entry cloned out: what the id holds, or `None`.
#[verifier::external_body]
fn states_get(m: &DashMap<String, PoolSyncInfo>, id: &str) -> (r: Option<PoolSyncInfo>)
    ensures
        match r {
            Some(i) => sync_states(*m).contains_key(id@) && sync_states(*m)[id@] == i,
            None => !sync_states(*m).contains_key(id@),
        },
{
    match m.get(id) {
        Some(entry) => Some(entry.value().clone()),
        None => None,
    }
}

/// `DashMap::insert`: the id now holds the state, whatever it held before.
#[verifier::external_body]
fn states_insert(m: &mut DashMap<String, PoolSyncInfo>, id: String, info: PoolSyncInfo)
    ensures
        sync_states(*final(m)) == sync_states(*old(m)).insert(id@, info),
{
    m.insert(id, info);
}

/// `DashMap::remove`: the id holds nothing afterwards.
#[verifier::external_body]
fn states_remove(m: &mut DashMap<String, PoolSyncInfo>, id: &str)
    ensures
        sync_states(*final(m)) == sync_states(*old(m)).remove(id@),
{
    m.remove(id);
}

/// `DashMap::new`: an empty map.
#[verifier::external_body]
fn known_new() -> (m: DashMap<String, StrSet>)
    ensures
        known_sets(m).dom() == Set::<Seq<char>>::empty(),
{
    DashMap::new()
}

/// `DashMap::get`, the set cloned out: what the id holds, or `None`.
#[verifier::external_body]
fn known_get(m: &DashMap<String, StrSet>, id: &str) -> (r: Option<StrSet>)
    ensures
        match r {
            Some(s) => known_sets(*m).contains_key(id@) && known_sets(*m)[id@] == s@,
            None => !known_sets(*m).contains_key(id@),
        },
{
    match m.get(id) {
        Some(entry) => Some(entry.value().clone()),
        None => None,
    }
}

/// `DashMap::insert`: the id now holds the set, whatever it held before.
#[verifier::external_body]
fn known_insert(m: &mut DashMap<String, StrSet>, id: String, set: StrSet)
    ensures
        known_sets(*final(m)) == known_sets(*old(m)).insert(id@, set@),
{
    m.insert(id, set);
}

/// `DashMap::remove`: the id holds nothing afterwards.
#[verifier::external_body]
fn known_remove(m: &mut DashMap<String, StrSet>, id: &str)
    ensures
        known_sets(*final(m)) == known_sets(*old(m)).remove(id@),
{
    m.remove(id);
}

/// The synchronization engine's state.
pub struct PoolSync {
    states: DashMap<String, PoolSyncInfo>,
    known: DashMap<String, StrSet>,
    scanning: bool,
}

/// Claiming the full-scan slot: whether the scan may start, and whether the slot is held
/// afterwards.
pub open spec fn claim_scan(scanning: bool) -> (bool, bool) {
    (!scanning, true)
}

/// Releasing the full-scan slot.
pub open spec fn release_scan(scanning: bool) -> bool {
    false
}

/// The slot held after `claims` further claims, starting from `scanning`.
pub open spec fn after_claims(scanning: bool, claims: nat) -> bool
    decreases claims,
{
    if claims == 0 {
        scanning
    } else {
        claim_scan(after_claims(scanning, (claims - 1) as nat)).1
    }
}

/// The difference `wanted − actual`.
pub open spec fn missing_set(wanted: Set<Seq<char>>, actual: Set<Seq<char>>) -> Set<Seq<char>> {
    wanted.difference(actual)
}

impl PoolSync {
    /// The state of each pool.
    pub closed spec fn states(&self) -> Map<Seq<char>, PoolSyncInfo> {
        sync_states(self.states)
    }

    /// The objects known to be in each pool.
    pub closed spec fn known(&self) -> Map<Seq<char>, Set<Seq<char>>> {
        known_sets(self.known)
    }

    /// Whether a full scan is running.
    pub closed spec fn is_scanning(&self) -> bool {
        self.scanning
    }

    /// An engine that knows nothing yet.
    pub fn new() -> (s: PoolSync)
        ensures
            s.states().dom() == Set::<Seq<char>>::empty(),
            s.known().dom() == Set::<Seq<char>>::empty(),
            !s.is_scanning(),
    {
        PoolSync { states: states_new(), known: known_new(), scanning: false }
    }

    /// Records a successful write by this service: the object is now known to be in the
    /// pool, which spares the next reconciliation a rescan.
    pub fn record_write(&mut self, pool_id: &str, sha256: &str)
        ensures
            final(self).known() == old(self).known().insert(
                pool_id@,
                if old(self).known().contains_key(pool_id@) {
                    old(self).known()[pool_id@]
                } else {
                    Set::empty()
                }.insert(sha256@),
            ),
            final(self).states() == old(self).states(),
            final(self).is_scanning() == old(self).is_scanning(),
    {
        let mut set = match known_get(&self.known, pool_id) {
            Some(s) => s,
            None => StrSet::new(),
        };
        let _ = set.insert(crate::common::text::owned(sha256));
        known_insert(&mut self.known, crate::common::text::owned(pool_id), set);
        assert(self.known() =~= old(self).known().insert(
            pool_id@,
            if old(self).known().contains_key(pool_id@) {
                old(self).known()[pool_id@]
            } else {
                Set::empty()
            }.insert(sha256@),
        ));
    }

    /// The state of a pool.
    pub fn status(&self, pool_id: &str) -> (s: Option<PoolSyncInfo>)
        ensures
            match s {
                Some(x) => self.states().contains_key(pool_id@) && x == self.states()[pool_id@],
                None => !self.states().contains_key(pool_id@),
            },
    {
        states_get(&self.states, pool_id)
    }

    /// The objects known to be in a pool, if a scan has established them.
    pub fn known_objects(&self, pool_id: &str) -> (s: Option<StrSet>)
        ensures
            match s {
                Some(x) => self.known().contains_key(pool_id@) && x@ == self.known()[pool_id@],
                None => !self.known().contains_key(pool_id@),
            },
    {
        known_get(&self.known, pool_id)
    }

    /// Forgets a deleted pool.
    pub fn deregister(&mut self, pool_id: &str)
        ensures
            final(self).states() == old(self).states().remove(pool_id@),
            final(self).known() == old(self).known().remove(pool_id@),
            final(self).is_scanning() == old(self).is_scanning(),
    {
        states_remove(&mut self.states, pool_id);
        known_remove(&mut self.known, pool_id);
    }

    /// Claims the full-scan slot. A scan requested while one is running is skipped:
    /// `false`, and nothing changes.
    pub fn try_start_scan(&mut self) -> (started: bool)
        ensures
            (started, final(self).is_scanning()) == claim_scan(old(self).is_scanning()),
            started == !old(self).is_scanning(),
            final(self).is_scanning(),
            final(self).states() == old(self).states(),
            final(self).known() == old(self).known(),
    {
        let was = self.scanning;
        self.scanning = true;
        !was
    }

    /// Releases the full-scan slot.
    pub fn finish_scan(&mut self)
        ensures
            final(self).is_scanning() == release_scan(old(self).is_scanning()),
            !final(self).is_scanning(),
            final(self).states() == old(self).states(),
            final(self).known() == old(self).known(),
    {
        self.scanning = false;
    }

    /// A scan of a pool succeeded: what it found becomes the pool's known set.
    pub fn set_known(&mut self, pool_id: &str, actual: StrSet)
        ensures
            final(self).known() == old(self).known().insert(pool_id@, actual@),
            final(self).states() == old(self).states(),
            final(self).is_scanning() == old(self).is_scanning(),
    {
        known_insert(&mut self.known, crate::common::text::owned(pool_id), actual);
    }

    /// A full scan of a pool ended and its missing objects were pushed, `remaining` of them
    /// still missing: the pool is synced when none is left, else still syncing with that
    /// many pending; either way stamped with the scan time.
    pub fn scan_succeeded(&mut self, pool_id: &str, scanned_at: i64, remaining: usize) -> (info: PoolSyncInfo)
        ensures
            info.status == (if remaining == 0 {
                PoolSyncStatus::Synced
            } else {
                PoolSyncStatus::Syncing
            }),
            info.pending == remaining,
            info.scanned_at == Some(scanned_at),
            info.error is None,
            final(self).states() == old(self).states().insert(pool_id@, info),
            final(self).known() == old(self).known(),
            final(self).is_scanning() == old(self).is_scanning(),
    {
        let status = if remaining == 0 {
            PoolSyncStatus::Synced
        } else {
            PoolSyncStatus::Syncing
        };
        let info = PoolSyncInfo::new(status, remaining, Some(scanned_at));
        states_insert(&mut self.states, crate::common::text::owned(pool_id), info.clone());
        info
    }

    /// A full scan of a pool failed with `error`.
    pub fn scan_failed(&mut self, pool_id: &str, error: String, scanned_at: i64) -> (info: PoolSyncInfo)
        ensures
            info.status == PoolSyncStatus::Error && info.pending == 0 && info.scanned_at == Some(
                scanned_at,
            ) && info.error == Some(error),
            final(self).states() == old(self).states().insert(pool_id@, info),
            final(self).known() == old(self).known(),
            final(self).is_scanning() == old(self).is_scanning(),
    {
        let info = PoolSyncInfo { status: PoolSyncStatus::Error, pending: 0, scanned_at: Some(scanned_at), error: Some(error) };
        states_insert(&mut self.states, crate::common::text::owned(pool_id), info.clone());
        info
    }

    /// Starts pushing a pool's missing objects: returns `wanted − actual` in increasing
    /// order, and marks the pool syncing with that many pending when there are any.
    pub fn begin_push(&mut self, pool_id: &str, wanted: Option<&StrSet>, actual: &StrSet) -> (missing: Vec<String>)
        ensures
            strictly_sorted(missing@),
            view_set(missing@) == missing_set(
                match wanted {
                    Some(w) => w@,
                    None => Set::empty(),
                },
                actual@,
            ),
            missing@.len() == 0 ==> final(self).states() == old(self).states(),
            missing@.len() > 0 ==> final(self).states() == old(self).states().insert(
                pool_id@,
                (PoolSyncInfo {
                    status: PoolSyncStatus::Syncing,
                    pending: missing@.len() as usize,
                    scanned_at: None,
                    error: None,
                }),
            ),
            final(self).known() == old(self).known(),
            final(self).is_scanning() == old(self).is_scanning(),
    {
        let ghost w = match wanted {
            Some(w) => w@,
            None => Set::<Seq<char>>::empty(),
        };
        let mut diff: Vec<String> = Vec::new();
        match wanted {
            Some(ws) => {
                let all = ws.to_vec();
                let mut i: usize = 0;
                while i < all.len()
                    invariant
                        i <= all.len(),
                        w == ws@,
                        all@.len() == ws@.len(),
                        forall|a: int| 0 <= a < all@.len() ==> ws@.contains(#[trigger] all@[a]@),
                        forall|k: Seq<char>|
                            #[trigger] ws@.contains(k) ==> exists|a: int|
                                0 <= a < all@.len() && #[trigger] all@[a]@ == k,
                        forall|a: int, b: int|
                            0 <= a < b < all@.len() ==> #[trigger] all@[a]@ != #[trigger] all@[b]@,
                        crate::common::order::distinct_views(diff@),
                        view_set(diff@) == Set::new(|k: Seq<char>| exists|a: int| 0 <= a < i && #[trigger] all@[a]@ == k && !actual@.contains(k)),
                    decreases all.len() - i,
                {
                    let ghost before = diff@;
                    if !actual.contains(all[i].as_str()) {
                        proof {
                            assert(!view_set(before).contains(all@[i as int]@)) by {
                                if view_set(before).contains(all@[i as int]@) {
                                    let a = choose|a: int| 0 <= a < i && #[trigger] all@[a]@ == all@[i as int]@ && !actual@.contains(all@[i as int]@);
                                    assert(all@[a]@ != all@[i as int]@);
                                }
                            }
                        }
                        diff.push(all[i].clone());
                        proof {
                            assert forall|a: int, b: int| 0 <= a < b < diff@.len() implies #[trigger] diff@[a]@ != #[trigger] diff@[b]@ by {
                                if b == diff@.len() - 1 {
                                    assert(diff@[a] == before[a]);
                                    assert(view_set(before).contains(diff@[a]@));
                                } else {
                                    assert(diff@[a] == before[a] && diff@[b] == before[b]);
                                }
                            }
                        }
                    }
                    proof {
                        let next = Set::new(|k: Seq<char>| exists|a: int| 0 <= a < i + 1 && #[trigger] all@[a]@ == k && !actual@.contains(k));
                        assert(view_set(diff@) =~= next) by {
                            assert forall|k: Seq<char>| view_set(diff@).contains(k) implies next.contains(k) by {
                                let j = choose|j: int| 0 <= j < diff@.len() && #[trigger] diff@[j]@ == k;
                                if j < before.len() {
                                    assert(diff@[j] == before[j]);
                                    assert(view_set(before).contains(k));
                                } else {
                                    assert(all@[i as int]@ == k);
                                }
                            }
                            assert forall|k: Seq<char>| next.contains(k) implies view_set(diff@).contains(k) by {
                                let a = choose|a: int| 0 <= a < i + 1 && #[trigger] all@[a]@ == k && !actual@.contains(k);
                                if a < i {
                                    assert(view_set(before).contains(k));
                                    let j = choose|j: int| 0 <= j < before.len() && #[trigger] before[j]@ == k;
                                    assert(diff@[j] == before[j]);
                                } else {
                                    assert(diff@[diff@.len() - 1]@ == k);
                                }
                            }
                        }
                    }
                    i += 1;
                }
                proof {
                    assert(view_set(diff@) =~= missing_set(w, actual@)) by {
                        assert forall|k: Seq<char>| missing_set(w, actual@).contains(k) implies view_set(diff@).contains(k) by {
                            let a = choose|a: int| 0 <= a < all@.len() && #[trigger] all@[a]@ == k;
                        }
                    }
                }
            },
            None => {
                assert(view_set(diff@) =~= missing_set(w, actual@));
            },
        }
        let missing = sort_strings(diff);
        if missing.len() > 0 {
            let info = PoolSyncInfo::new(PoolSyncStatus::Syncing, missing.len(), None);
            states_insert(&mut self.states, crate::common::text::owned(pool_id), info);
        }
        missing
    }

    /// One missing object reached the pool.
    pub fn push_succeeded(&mut self, pool_id: &str, sha256: &str)
        ensures
            final(self).known() == old(self).known().insert(
                pool_id@,
                if old(self).known().contains_key(pool_id@) {
                    old(self).known()[pool_id@]
                } else {
                    Set::empty()
                }.insert(sha256@),
            ),
            final(self).states() == old(self).states(),
            final(self).is_scanning() == old(self).is_scanning(),
    {
        self.record_write(pool_id, sha256);
    }

    /// A push round ended with `pushed` of `total` objects pushed: synced when none is
    /// left, else still syncing with the remainder pending.
    pub fn finish_push(&mut self, pool_id: &str, total: usize, pushed: usize) -> (info: PoolSyncInfo)
        ensures
            total <= pushed ==> info == (PoolSyncInfo {
                status: PoolSyncStatus::Synced,
                pending: 0,
                scanned_at: None,
                error: None,
            }),
            total > pushed ==> info == (PoolSyncInfo {
                status: PoolSyncStatus::Syncing,
                pending: (total - pushed) as usize,
                scanned_at: None,
                error: None,
            }),
            final(self).states() == old(self).states().insert(pool_id@, info),
            final(self).known() == old(self).known(),
            final(self).is_scanning() == old(self).is_scanning(),
    {
        let remaining = total.saturating_sub(pushed);
        let info = if remaining == 0 {
            PoolSyncInfo::new(PoolSyncStatus::Synced, 0, None)
        } else {
            PoolSyncInfo::new(PoolSyncStatus::Syncing, remaining, None)
        };
        states_insert(&mut self.states, crate::common::text::owned(pool_id), info.clone());
        info
    }
}

/// At most one full scan runs at a time: once a claim has started a scan, every further
/// claim is refused until the slot is released, and the first claim after a release
/// starts the next scan.
pub proof fn law_one_scan_at_a_time(scanning: bool, claims: nat)
    ensures
        claims > 0 ==> !claim_scan(after_claims(scanning, claims)).0,
        claim_scan(release_scan(scanning)).0,
    decreases claims,
{
    if claims > 1 {
        law_one_scan_at_a_time(scanning, (claims - 1) as nat);
    }
}

/// Pushing every missing object closes the gap: afterwards the pool is known to hold
/// everything it should, and nothing it already held was pushed again.
pub proof fn law_push_closes_gap(wanted: Set<Seq<char>>, actual: Set<Seq<char>>)
    ensures
        wanted.subset_of(actual.union(missing_set(wanted, actual))),
        missing_set(wanted, actual).disjoint(actual),
        missing_set(wanted, actual).subset_of(wanted),
{
}

} // verus!
