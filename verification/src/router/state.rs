//! Shared runtime state the routes consult: each connected pool's public settings.
use vstd::prelude::*;
use dashmap::DashMap;
use crate::database::repo::PoolRow;

verus! {

/// A pool's public settings, used to pick a download redirect target; kept in step by
/// pool creation and modification.
pub struct PoolMeta {
    pub public_endpoint: String,
    pub is_public: bool,
}

impl Clone for PoolMeta {
    fn clone(&self) -> (out: PoolMeta)
        ensures
            out == *self,
    {
        PoolMeta { public_endpoint: self.public_endpoint.clone(), is_public: self.is_public }
    }
}

/// What a `DashMap` of pool settings holds: for each pool id, its public endpoint and
/// whether it is public.
pub uninterp spec fn meta_entries(m: DashMap<String, PoolMeta>) -> Map<Seq<char>, (Seq<char>, bool)>;

/// `DashMap::new`: an empty map.
#[verifier::external_body]
fn metas_new() -> (m: DashMap<String, PoolMeta>)
    ensures
        meta_entries(m).dom() == Set::<Seq<char>>::empty(),
{
    DashMap::new()
}

/// `DashMap::insert`: the id now holds the settings, whatever it held before.
#[verifier::external_body]
fn metas_insert(m: &mut DashMap<String, PoolMeta>, id: String, meta: PoolMeta)
    ensures
        meta_entries(*final(m)) == meta_entries(*old(m)).insert(id@, (meta.public_endpoint@, meta.is_public)),
{
    m.insert(id, meta);
}

/// `DashMap::remove`: the id holds nothing afterwards.
#[verifier::external_body]
fn metas_remove(m: &mut DashMap<String, PoolMeta>, id: &str)
    ensures
        meta_entries(*final(m)) == meta_entries(*old(m)).remove(id@),
{
    m.remove(id);
}

/// `DashMap::clear`: the map is empty afterwards.
#[verifier::external_body]
fn metas_clear(m: &mut DashMap<String, PoolMeta>)
    ensures
        meta_entries(*final(m)).dom() == Set::<Seq<char>>::empty(),
{
    m.clear();
}

/// `DashMap::get`, the entry cloned out: what the id holds, or `None`.
#[verifier::external_body]
fn metas_get(m: &DashMap<String, PoolMeta>, id: &str) -> (r: Option<PoolMeta>)
    ensures
        match r {
            Some(p) => meta_entries(*m).contains_key(id@) && meta_entries(*m)[id@] == (
            p.public_endpoint@,
            p.is_public,
            ),
            None => !meta_entries(*m).contains_key(id@),
        },
{
    match m.get(id) {
        Some(entry) => Some(entry.value().clone()),
        None => None,
    }
}

/// Pool id to public settings, for the pools connected at the last (re)load.
pub struct PoolMetaMap {
    metas: DashMap<String, PoolMeta>,
}

/// The settings a pool row gives.
pub open spec fn meta_of(row: PoolRow) -> (Seq<char>, bool) {
    (row.public_endpoint@, row.is_public)
}

impl PoolMetaMap {
    /// The settings by pool id: public endpoint and whether the pool is public.
    pub closed spec fn view(&self) -> Map<Seq<char>, (Seq<char>, bool)> {
        meta_entries(self.metas)
    }

    /// An empty table.
    pub fn new() -> (m: PoolMetaMap)
        ensures
            m@.dom() == Set::<Seq<char>>::empty(),
    {
        PoolMetaMap { metas: metas_new() }
    }

    /// Sets the settings of pool `id`.
    pub fn insert(&mut self, id: String, meta: PoolMeta)
        ensures
            final(self)@ == old(self)@.insert(id@, (meta.public_endpoint@, meta.is_public)),
    {
        metas_insert(&mut self.metas, id, meta);
    }

    /// Records the settings of a pool whose row was (re)read: what a successful connect and
    /// a modification do.
    pub fn record(&mut self, row: &PoolRow)
        ensures
            final(self)@ == old(self)@.insert(row.id@, meta_of(*row)),
    {
        let meta = PoolMeta { public_endpoint: row.public_endpoint.clone(), is_public: row.is_public };
        self.insert(row.id.clone(), meta);
    }

    /// Forgets pool `id`.
    pub fn remove(&mut self, id: &str)
        ensures
            final(self)@ == old(self)@.remove(id@),
    {
        metas_remove(&mut self.metas, id);
    }

    /// Forgets every pool.
    pub fn clear(&mut self)
        ensures
            final(self)@.dom() == Set::<Seq<char>>::empty(),
    {
        metas_clear(&mut self.metas);
    }

    /// The settings of pool `id`.
    pub fn get(&self, id: &str) -> (r: Option<PoolMeta>)
        ensures
            match r {
                Some(p) => self@.contains_key(id@) && self@[id@] == (p.public_endpoint@, p.is_public),
                None => !self@.contains_key(id@),
            },
    {
        metas_get(&self.metas, id)
    }
}

} // verus!
