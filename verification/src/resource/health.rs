//! Pool health: the table of probe results and the rules of the probing rounds.
//!
//! A probe lists the pool root. Being connected (the connection was made) and being up
//! (the last probe passed) are two levels: a connected pool whose probe fails is down.
use vstd::prelude::*;
use dashmap::{DashMap, DashSet};
use crate::common::text::{decimal, decimal_text, join3, list_contains, owned, seq_views};

verus! {

/// The result of the last probe of a pool.
pub struct HealthStatus {
    pub up: bool,
    /// When the probe ran, in microseconds since the Unix epoch.
    pub checked_at: i64,
    pub error: Option<String>,
}

impl Clone for HealthStatus {
    fn clone(&self) -> (out: HealthStatus)
        ensures
            out == *self,
    {
        let error = match &self.error {
            Some(e) => Some(e.clone()),
            None => None,
        };
        HealthStatus { up: self.up, checked_at: self.checked_at, error }
    }
}

/// How a probe (a listing of the pool root under a time limit) ended.
pub enum ProbeOutcome {
    /// The listing succeeded.
    Listed,
    /// The listing failed with this error text.
    Failed(String),
    /// The time limit passed first.
    TimedOut,
}

/// `format!("{:?}", Duration::from_secs(secs))`: `"0ns"` for zero, else `"<secs>s"`.
pub open spec fn duration_text(secs: u64) -> Seq<char> {
    if secs == 0 {
        "0ns"@
    } else {
        decimal(secs as nat) + "s"@
    }
}

/// The status a probe outcome leaves.
pub open spec fn status_after(outcome: ProbeOutcome, timeout_secs: u64, checked_at: i64, s: HealthStatus) -> bool {
    s.checked_at == checked_at && match outcome {
        ProbeOutcome::Listed => s.up && s.error is None,
        ProbeOutcome::Failed(e) => !s.up && (s.error matches Some(m) && m@ == e@),
        ProbeOutcome::TimedOut => !s.up && (s.error matches Some(m) && m@ == "probe timeout after "@
            + duration_text(timeout_secs)),
    }
}

/// What a `DashMap` of probe results holds, by pool id.
pub uninterp spec fn health_entries(m: DashMap<String, HealthStatus>) -> Map<Seq<char>, HealthStatus>;

/// What a `DashSet` of pool ids holds.
pub uninterp spec fn rotation_members(s: DashSet<String>) -> Set<Seq<char>>;

/// `DashMap::new`: an empty map.
#[verifier::external_body]
fn table_new() -> (m: DashMap<String, HealthStatus>)
    ensures
        health_entries(m).dom() == Set::<Seq<char>>::empty(),
{
    DashMap::new()
}

/// `DashMap::get`, the entry cloned out: what the id holds, or `None`.
#[verifier::external_body]
fn table_get(m: &DashMap<String, HealthStatus>, id: &str) -> (r: Option<HealthStatus>)
    ensures
        match r {
            Some(h) => health_entries(*m).contains_key(id@) && health_entries(*m)[id@] == h,
            None => !health_entries(*m).contains_key(id@),
        },
{
    match m.get(id) {
        Some(entry) => Some(entry.value().clone()),
        None => None,
    }
}

/// `DashMap::insert`: the id now holds the status, whatever it held before.
#[verifier::external_body]
fn table_insert(m: &mut DashMap<String, HealthStatus>, id: String, status: HealthStatus)
    ensures
        health_entries(*final(m)) == health_entries(*old(m)).insert(id@, status),
{
    m.insert(id, status);
}

/// `DashMap::remove`: the id holds nothing afterwards.
#[verifier::external_body]
fn table_remove(m: &mut DashMap<String, HealthStatus>, id: &str)
    ensures
        health_entries(*final(m)) == health_entries(*old(m)).remove(id@),
{
    m.remove(id);
}

/// `DashSet::new`: an empty set.
#[verifier::external_body]
fn rotation_new() -> (s: DashSet<String>)
    ensures
        rotation_members(s) == Set::<Seq<char>>::empty(),
{
    DashSet::new()
}

/// `DashSet::contains`.
#[verifier::external_body]
fn rotation_contains(s: &DashSet<String>, id: &str) -> (yes: bool)
    ensures
        yes == rotation_members(*s).contains(id@),
{
    s.contains(id)
}

/// `DashSet::insert`: the id is a member afterwards.
#[verifier::external_body]
fn rotation_insert(s: &mut DashSet<String>, id: String)
    ensures
        rotation_members(*final(s)) == rotation_members(*old(s)).insert(id@),
{
    s.insert(id);
}

/// `DashSet::remove`: the id is no member afterwards.
#[verifier::external_body]
fn rotation_remove(s: &mut DashSet<String>, id: &str)
    ensures
        rotation_members(*final(s)) == rotation_members(*old(s)).remove(id@),
{
    s.remove(id);
}

/// `DashSet::iter`, each member cloned: every member once, in the set's own order.
#[verifier::external_body]
fn rotation_list(s: &DashSet<String>) -> (out: Vec<String>)
    ensures
        out@.len() == rotation_members(*s).len(),
        forall|i: int| 0 <= i < out@.len() ==> rotation_members(*s).contains(#[trigger] out@[i]@),
        forall|k: Seq<char>|
            #[trigger] rotation_members(*s).contains(k) ==> exists|i: int|
                0 <= i < out@.len() && #[trigger] out@[i]@ == k,
        forall|i: int, j: int| 0 <= i < j < out@.len() ==> #[trigger] out@[i]@ != #[trigger] out@[j]@,
{
    let mut out = Vec::new();
    for entry in s.iter() {
        out.push(entry.key().clone());
    }
    out
}

/// The health supervisor's state: the probe results and the pools already in rotation.
pub struct PoolHealth {
    interval_secs: u64,
    timeout_secs: u64,
    table: DashMap<String, HealthStatus>,
    /// Pools already in rotation; a newly registered pool is probed at once instead of
    /// waiting a whole period.
    seen: DashSet<String>,
}

impl PoolHealth {
    /// The probe results by pool id.
    pub closed spec fn table(&self) -> Map<Seq<char>, HealthStatus> {
        health_entries(self.table)
    }

    /// The pools in rotation.
    pub closed spec fn seen(&self) -> Set<Seq<char>> {
        rotation_members(self.seen)
    }

    /// The probing period.
    pub closed spec fn interval(&self) -> u64 {
        self.interval_secs
    }

    /// The time limit of one probe.
    pub closed spec fn timeout(&self) -> u64 {
        self.timeout_secs
    }

    /// A supervisor with an empty table.
    pub fn new(interval_secs: u64, timeout_secs: u64) -> (h: PoolHealth)
        ensures
            h.table().dom() == Set::<Seq<char>>::empty(),
            h.seen() == Set::<Seq<char>>::empty(),
            h.interval() == interval_secs,
            h.timeout() == timeout_secs,
    {
        PoolHealth { interval_secs, timeout_secs, table: table_new(), seen: rotation_new() }
    }

    /// The probing period in seconds.
    pub fn interval_secs(&self) -> (s: u64)
        ensures
            s == self.interval(),
    {
        self.interval_secs
    }

    /// The time limit of one probe in seconds.
    pub fn timeout_secs(&self) -> (s: u64)
        ensures
            s == self.timeout(),
    {
        self.timeout_secs
    }

    /// The last probe result of a pool.
    pub fn status(&self, id: &str) -> (s: Option<HealthStatus>)
        ensures
            match s {
                Some(x) => self.table().contains_key(id@) && x == self.table()[id@],
                None => !self.table().contains_key(id@),
            },
    {
        table_get(&self.table, id)
    }

    /// Forgets a deleted pool, so that nothing stale is probed or shown.
    pub fn deregister(&mut self, id: &str)
        ensures
            final(self).table() == old(self).table().remove(id@),
            final(self).seen() == old(self).seen().remove(id@),
            final(self).interval() == old(self).interval(),
            final(self).timeout() == old(self).timeout(),
    {
        rotation_remove(&mut self.seen, id);
        table_remove(&mut self.table, id);
    }

    /// Whether a pool is new to the rotation and gets an immediate first probe: neither
    /// in rotation nor in the table.
    pub fn needs_first_probe(&self, id: &str) -> (yes: bool)
        ensures
            yes == (!self.seen().contains(id@) && !self.table().contains_key(id@)),
    {
        !rotation_contains(&self.seen, id) && table_get(&self.table, id).is_none()
    }

    /// Puts a pool into rotation after its first probe.
    pub fn mark_seen(&mut self, id: String)
        ensures
            final(self).seen() == old(self).seen().insert(id@),
            final(self).table() == old(self).table(),
            final(self).interval() == old(self).interval(),
            final(self).timeout() == old(self).timeout(),
    {
        rotation_insert(&mut self.seen, id);
    }

    /// The status a probe outcome leaves, stamped with `checked_at`.
    pub fn status_for(&self, outcome: ProbeOutcome, checked_at: i64) -> (s: HealthStatus)
        ensures
            status_after(outcome, self.timeout(), checked_at, s),
    {
        match outcome {
            ProbeOutcome::Listed => HealthStatus { up: true, checked_at, error: None },
            ProbeOutcome::Failed(e) => HealthStatus { up: false, checked_at, error: Some(e) },
            ProbeOutcome::TimedOut => {
                let d = if self.timeout_secs == 0 {
                    owned("0ns")
                } else {
                    crate::common::text::join2(decimal_text(self.timeout_secs).as_str(), "s")
                };
                let m = crate::common::text::join2("probe timeout after ", d.as_str());
                HealthStatus { up: false, checked_at, error: Some(m) }
            },
        }
    }

    /// Records the result of a probe of pool `id`.
    pub fn record(&mut self, id: String, status: HealthStatus)
        ensures
            final(self).table() == old(self).table().insert(id@, status),
            final(self).seen() == old(self).seen(),
            final(self).interval() == old(self).interval(),
            final(self).timeout() == old(self).timeout(),
    {
        table_insert(&mut self.table, id, status);
    }

    /// End of a round: pools in rotation that are no longer registered leave the rotation
    /// and the table.
    pub fn prune(&mut self, ids: &Vec<String>)
        ensures
            final(self).seen() == old(self).seen().intersect(seq_views(ids@)),
            final(self).table() == old(self).table().remove_keys(
                old(self).seen().difference(seq_views(ids@)),
            ),
            final(self).interval() == old(self).interval(),
            final(self).timeout() == old(self).timeout(),
    {
        let active = rotation_list(&self.seen);
        let ghost gone = old(self).seen().difference(seq_views(ids@));
        let mut i: usize = 0;
        while i < active.len()
            invariant
                i <= active.len(),
                active@.len() == old(self).seen().len(),
                forall|a: int| 0 <= a < active@.len() ==> old(self).seen().contains(#[trigger] active@[a]@),
                forall|k: Seq<char>|
                    #[trigger] old(self).seen().contains(k) ==> exists|a: int|
                        0 <= a < active@.len() && #[trigger] active@[a]@ == k,
                forall|a: int, b: int|
                    0 <= a < b < active@.len() ==> #[trigger] active@[a]@ != #[trigger] active@[b]@,
                self.seen() == old(self).seen().difference(
                    Set::new(|k: Seq<char>| exists|a: int| 0 <= a < i && #[trigger] active@[a]@ == k && !seq_views(ids@).contains(k)),
                ),
                self.table() == old(self).table().remove_keys(
                    Set::new(|k: Seq<char>| exists|a: int| 0 <= a < i && #[trigger] active@[a]@ == k && !seq_views(ids@).contains(k)),
                ),
                self.interval() == old(self).interval(),
                self.timeout() == old(self).timeout(),
            decreases active.len() - i,
        {
            let id = &active[i];
            let ghost before_seen = self.seen();
            let ghost before_table = self.table();
            if !list_contains(ids, id.as_str()) {
                rotation_remove(&mut self.seen, id.as_str());
                table_remove(&mut self.table, id.as_str());
            }
            proof {
                let done = Set::new(|k: Seq<char>| exists|a: int| 0 <= a < i + 1 && #[trigger] active@[a]@ == k && !seq_views(ids@).contains(k));
                let prev = Set::new(|k: Seq<char>| exists|a: int| 0 <= a < i && #[trigger] active@[a]@ == k && !seq_views(ids@).contains(k));
                if seq_views(ids@).contains(active@[i as int]@) {
                    assert(done =~= prev);
                } else {
                    assert(done =~= prev.insert(active@[i as int]@));
                }
                assert(self.seen() =~= old(self).seen().difference(done));
                assert(self.table() =~= old(self).table().remove_keys(done));
            }
            i += 1;
        }
        proof {
            let done = Set::new(|k: Seq<char>| exists|a: int| 0 <= a < active@.len() && #[trigger] active@[a]@ == k && !seq_views(ids@).contains(k));
            assert(done =~= gone);
            assert(self.seen() =~= old(self).seen().intersect(seq_views(ids@)));
        }
    }
}

} // verus!
