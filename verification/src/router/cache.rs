//! A short-lived cache for the public endpoints.
//!
//! The client endpoints need no authentication and change rarely (channels and
//! announcements are edited by hand), so answers (their JSON text) are kept for a few
//! seconds. Time is a monotonic clock reading in milliseconds, supplied by the caller.
use vstd::prelude::*;
use dashmap::DashMap;

verus! {

/// Most entries the cache holds; inserting into a full cache first drops the oldest.
pub const CACHE_CAPACITY: usize = 1024;

/// What a `DashMap` of cached answers holds: for each key, the insertion time and the
/// answer's JSON text.
pub uninterp spec fn cached_answers(m: DashMap<String, (u64, String)>) -> Map<Seq<char>, (u64, Seq<char>)>;

/// `DashMap::new`: an empty map.
#[verifier::external_body]
fn answers_new() -> (m: DashMap<String, (u64, String)>)
    ensures
        cached_answers(m).dom() == Set::<Seq<char>>::empty(),
{
    DashMap::new()
}

/// `DashMap::len`: the number of keys.
#[verifier::external_body]
fn answers_len(m: &DashMap<String, (u64, String)>) -> (n: usize)
    ensures
        n == cached_answers(*m).dom().len(),
{
    m.len()
}

/// `DashMap::get`, the entry cloned out: what the key holds, or `None`.
#[verifier::external_body]
fn answers_get(m: &DashMap<String, (u64, String)>, key: &str) -> (r: Option<(u64, String)>)
    ensures
        match r {
            Some(e) => cached_answers(*m).contains_key(key@) && cached_answers(*m)[key@] == (e.0, e.1@),
            None => !cached_answers(*m).contains_key(key@),
        },
{
    match m.get(key) {
        Some(entry) => Some(entry.value().clone()),
        None => None,
    }
}

/// `DashMap::remove`: the key holds nothing afterwards.
#[verifier::external_body]
fn answers_remove(m: &mut DashMap<String, (u64, String)>, key: &str)
    ensures
        cached_answers(*final(m)) == cached_answers(*old(m)).remove(key@),
{
    m.remove(key);
}

/// `DashMap::insert`: the key now holds the entry, whatever it held before.
#[verifier::external_body]
fn answers_insert(m: &mut DashMap<String, (u64, String)>, key: String, entry: (u64, String))
    ensures
        cached_answers(*final(m)) == cached_answers(*old(m)).insert(key@, (entry.0, entry.1@)),
{
    m.insert(key, entry);
}

/// `DashMap::iter`, each entry taken as its key and insertion time: every key once, in
/// the map's own order.
#[verifier::external_body]
fn answers_times(m: &DashMap<String, (u64, String)>) -> (out: Vec<(String, u64)>)
    ensures
        out@.len() == cached_answers(*m).dom().len(),
        forall|i: int|
            0 <= i < out@.len() ==> cached_answers(*m).contains_key((#[trigger] out@[i]).0@)
                && cached_answers(*m)[out@[i].0@].0 == out@[i].1,
        forall|k: Seq<char>|
            #[trigger] cached_answers(*m).contains_key(k) ==> exists|i: int|
                0 <= i < out@.len() && #[trigger] out@[i].0@ == k,
{
    let mut out = Vec::new();
    for entry in m.iter() {
        out.push((entry.key().clone(), entry.value().0));
    }
    out
}

/// A cache of answers (JSON text) by key, each stamped with its insertion time.
pub struct PublicCache {
    ttl_ms: u64,
    entries: DashMap<String, (u64, String)>,
}

/// Whether an entry stamped `inserted` has expired at `now`.
pub open spec fn expired(inserted: u64, now: u64, ttl: u64) -> bool {
    (if now >= inserted { now - inserted } else { 0 }) >= ttl
}

impl PublicCache {
    /// The cache holds finitely many entries.
    #[verifier::type_invariant]
    spec fn finitely_many(&self) -> bool {
        cached_answers(self.entries).dom().finite()
    }

    /// The entries: insertion time and answer by key.
    pub closed spec fn view(&self) -> Map<Seq<char>, (u64, Seq<char>)> {
        cached_answers(self.entries)
    }

    /// How long an entry stays valid.
    pub closed spec fn ttl(&self) -> u64 {
        self.ttl_ms
    }

    /// An empty cache whose entries live `ttl_ms` milliseconds.
    pub fn new(ttl_ms: u64) -> (c: PublicCache)
        ensures
            c@.dom() == Set::<Seq<char>>::empty(),
            c.ttl() == ttl_ms,
    {
        PublicCache { ttl_ms, entries: answers_new() }
    }

    /// Number of entries.
    pub fn len(&self) -> (n: usize)
        ensures
            n == self@.dom().len(),
    {
        answers_len(&self.entries)
    }

    /// The answer under `key` if it has not expired at `now`; an expired entry is dropped.
    pub fn get(&mut self, key: &str, now: u64) -> (v: Option<String>)
        ensures
            final(self).ttl() == old(self).ttl(),
            !old(self)@.contains_key(key@) ==> v is None && final(self)@ == old(self)@,
            old(self)@.contains_key(key@) && expired(old(self)@[key@].0, now, old(self).ttl())
                ==> v is None && final(self)@ == old(self)@.remove(key@),
            old(self)@.contains_key(key@) && !expired(old(self)@[key@].0, now, old(self).ttl())
                ==> (v matches Some(x) && x@ == old(self)@[key@].1) && final(self)@ == old(self)@,
    {
        let entry = match answers_get(&self.entries, key) {
            None => return None,
            Some(e) => e,
        };
        if now.saturating_sub(entry.0) >= self.ttl_ms {
            proof {
                use_type_invariant(&*self);
            }
            let ttl_ms = self.ttl_ms;
            let mut entries = answers_new();
            std::mem::swap(&mut entries, &mut self.entries);
            answers_remove(&mut entries, key);
            *self = PublicCache { ttl_ms, entries };
            return None;
        }
        Some(entry.1)
    }

    /// A key whose entry is the oldest, if there is any entry.
    fn oldest(&self) -> (o: Option<String>)
        ensures
            match o {
                Some(k) => self@.contains_key(k@) && forall|q: Seq<char>|
                    #[trigger] self@.contains_key(q) ==> self@[k@].0 <= self@[q].0,
                None => self@.dom().len() == 0,
            },
    {
        let times = answers_times(&self.entries);
        let mut best: Option<String> = None;
        let mut best_time: u64 = 0;
        let mut i: usize = 0;
        while i < times.len()
            invariant
                i <= times.len(),
                times@.len() == self@.dom().len(),
                forall|a: int|
                    0 <= a < times@.len() ==> self@.contains_key((#[trigger] times@[a]).0@)
                        && self@[times@[a].0@].0 == times@[a].1,
                forall|q: Seq<char>|
                    #[trigger] self@.contains_key(q) ==> exists|a: int|
                        0 <= a < times@.len() && #[trigger] times@[a].0@ == q,
                i == 0 <==> best is None,
                best matches Some(b) ==> self@.contains_key(b@) && self@[b@].0 == best_time
                    && forall|a: int| 0 <= a < i ==> best_time <= (#[trigger] times@[a]).1,
            decreases times.len() - i,
        {
            let t = times[i].1;
            if best.is_none() || t < best_time {
                best = Some(times[i].0.clone());
                best_time = t;
            }
            i += 1;
        }
        proof {
            if best is Some {
                let b = best->0;
                assert forall|q: Seq<char>| #[trigger] self@.contains_key(q) implies self@[b@].0 <= self@[q].0 by {
                    let a = choose|a: int| 0 <= a < times@.len() && #[trigger] times@[a].0@ == q;
                    assert(best_time <= times@[a].1);
                }
            }
        }
        best
    }

    /// Stores `answer` under `key` at time `now`. A full cache first drops its oldest
    /// entry: the cache is an optimization, not part of the answer.
    pub fn insert(&mut self, key: String, answer: String, now: u64)
        ensures
            final(self).ttl() == old(self).ttl(),
            old(self)@.dom().len() < CACHE_CAPACITY ==> final(self)@ == old(self)@.insert(key@, (now, answer@)),
            old(self)@.dom().len() >= CACHE_CAPACITY ==> exists|o: Seq<char>|
                old(self)@.contains_key(o) && (forall|q: Seq<char>|
                    #[trigger] old(self)@.contains_key(q) ==> old(self)@[o].0 <= old(self)@[q].0)
                    && final(self)@ == old(self)@.remove(o).insert(key@, (now, answer@)),
            old(self)@.dom().len() <= CACHE_CAPACITY ==> final(self)@.dom().len() <= CACHE_CAPACITY,
    {
        proof {
            use_type_invariant(&*self);
        }
        let ghost k = key@;
        let n = answers_len(&self.entries);
        let oldest = if n >= CACHE_CAPACITY {
            self.oldest()
        } else {
            None
        };
        let ttl_ms = self.ttl_ms;
        let mut entries = answers_new();
        std::mem::swap(&mut entries, &mut self.entries);
        if let Some(o) = oldest {
            answers_remove(&mut entries, o.as_str());
        }
        let ghost mid = cached_answers(entries);
        answers_insert(&mut entries, key, (now, answer));
        *self = PublicCache { ttl_ms, entries };
        proof {
            if mid.contains_key(k) {
                assert(self@.dom() =~= mid.dom());
            } else {
                assert(self@.dom() =~= mid.dom().insert(k));
            }
        }
    }
}

/// An entry can be read back until its time is up, and not after.
pub proof fn law_fresh_until_ttl(inserted: u64, now: u64, ttl: u64)
    requires
        inserted <= now,
    ensures
        expired(inserted, now, ttl) <==> now - inserted >= ttl,
        ttl > 0 ==> !expired(inserted, inserted, ttl),
{
}

} // verus!
