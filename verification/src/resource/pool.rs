//! The pool registry and the directory entry shape shared by every storage kind.
use vstd::prelude::*;
use crate::common::strmap::StrMap;

verus! {

/// A directory entry of a pool.
pub struct Entry {
    pub name: String,
    /// Full path relative to the pool root.
    pub path: String,
    pub is_dir: bool,
    pub size: u64,
    /// Last modification, in microseconds since the Unix epoch.
    pub modified: Option<i64>,
}

/// The registry of connected pools, by pool id. `P` is the connection handle.
pub struct ResourcePool<P> {
    pools: StrMap<P>,
}

impl<P> ResourcePool<P> {
    /// The registered pools.
    pub closed spec fn view(&self) -> Map<Seq<char>, P> {
        self.pools@
    }

    /// An empty registry.
    pub fn new() -> (r: ResourcePool<P>)
        ensures
            r@ == Map::<Seq<char>, P>::empty(),
    {
        ResourcePool { pools: StrMap::new() }
    }

    /// Registers `pool` under `id`, replacing any earlier one.
    pub fn register(&mut self, id: String, pool: P)
        ensures
            final(self)@ == old(self)@.insert(id@, pool),
    {
        let _ = self.pools.insert(id, pool);
    }

    /// The pool under `id`.
    pub fn get(&self, id: &str) -> (p: Option<&P>)
        ensures
            match p {
                Some(x) => self@.contains_key(id@) && *x == self@[id@],
                None => !self@.contains_key(id@),
            },
    {
        self.pools.get(id)
    }

    /// Takes the pool under `id` out of the registry.
    pub fn remove(&mut self, id: &str) -> (p: Option<P>)
        ensures
            final(self)@ == old(self)@.remove(id@),
            match p {
                Some(x) => old(self)@.contains_key(id@) && x == old(self)@[id@],
                None => !old(self)@.contains_key(id@),
            },
    {
        self.pools.remove(id)
    }

    /// Drops every connection (a reload scans again afterwards).
    pub fn clear(&mut self)
        ensures
            final(self)@ == Map::<Seq<char>, P>::empty(),
    {
        self.pools.clear()
    }

    /// The registered ids, each once.
    pub fn ids(&self) -> (out: Vec<String>)
        ensures
            out@.len() == self@.dom().len(),
            forall|i: int| 0 <= i < out@.len() ==> self@.contains_key(#[trigger] out@[i]@),
            forall|k: Seq<char>|
                #[trigger] self@.contains_key(k) ==> exists|i: int|
                    0 <= i < out@.len() && #[trigger] out@[i]@ == k,
            forall|i: int, j: int|
                0 <= i < j < out@.len() ==> #[trigger] out@[i]@ != #[trigger] out@[j]@,
    {
        self.pools.keys()
    }

    /// Number of registered pools.
    pub fn count(&self) -> (n: usize)
        ensures
            n == self@.dom().len(),
    {
        self.pools.len()
    }
}

/// A registration is found again under its id until it is removed or replaced.
pub proof fn law_register_then_get<P>(registry: Map<Seq<char>, P>, id: Seq<char>, pool: P, other: Seq<char>)
    ensures
        registry.insert(id, pool)[id] == pool,
        other != id ==> registry.insert(id, pool).remove(other)[id] == pool,
        !registry.insert(id, pool).remove(id).contains_key(id),
{
}

} // verus!
