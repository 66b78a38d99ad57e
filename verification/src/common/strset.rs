//! A set of strings with an exact `Set` view.
use vstd::prelude::*;
use crate::common::strmap::StrMap;

verus! {

/// A set of strings.
pub struct StrSet {
    members: StrMap<()>,
}

impl StrSet {
    /// The members.
    pub closed spec fn view(&self) -> Set<Seq<char>> {
        self.members@.dom()
    }

    /// An empty set.
    pub fn new() -> (s: StrSet)
        ensures
            s@ == Set::<Seq<char>>::empty(),
    {
        let s = StrSet { members: StrMap::new() };
        assert(s@ =~= Set::<Seq<char>>::empty());
        s
    }

    /// Number of members.
    pub fn len(&self) -> (n: usize)
        ensures
            n == self@.len(),
            self@.finite(),
    {
        self.members.len()
    }

    /// Whether `item` is a member.
    pub fn contains(&self, item: &str) -> (yes: bool)
        ensures
            yes == self@.contains(item@),
    {
        self.members.contains_key(item)
    }

    /// Adds `item`; returns whether it was new.
    pub fn insert(&mut self, item: String) -> (added: bool)
        ensures
            final(self)@ == old(self)@.insert(item@),
            added == !old(self)@.contains(item@),
    {
        let ghost k = item@;
        let previous = self.members.insert(item, ());
        assert(self@ =~= old(self)@.insert(k));
        previous.is_none()
    }

    /// Removes `item`; returns whether it was a member.
    pub fn remove(&mut self, item: &str) -> (removed: bool)
        ensures
            final(self)@ == old(self)@.remove(item@),
            removed == old(self)@.contains(item@),
    {
        let previous = self.members.remove(item);
        assert(self@ =~= old(self)@.remove(item@));
        previous.is_some()
    }

    /// The members, each once, in unspecified order.
    pub fn to_vec(&self) -> (out: Vec<String>)
        ensures
            out@.len() == self@.len(),
            self@.finite(),
            forall|i: int| 0 <= i < out@.len() ==> self@.contains(#[trigger] out@[i]@),
            forall|k: Seq<char>|
                #[trigger] self@.contains(k) ==> exists|i: int|
                    0 <= i < out@.len() && #[trigger] out@[i]@ == k,
            forall|i: int, j: int|
                0 <= i < j < out@.len() ==> #[trigger] out@[i]@ != #[trigger] out@[j]@,
    {
        self.members.keys()
    }
}

impl Clone for StrSet {
    fn clone(&self) -> (out: StrSet)
        ensures
            out@ == self@,
    {
        let keys = self.members.keys();
        let mut out = StrSet::new();
        let mut i: usize = 0;
        while i < keys.len()
            invariant
                i <= keys.len(),
                keys@.len() == self@.len(),
                forall|a: int| 0 <= a < keys@.len() ==> self@.contains(#[trigger] keys@[a]@),
                forall|k: Seq<char>|
                    #[trigger] self@.contains(k) ==> exists|a: int|
                        0 <= a < keys@.len() && #[trigger] keys@[a]@ == k,
                out@ == Set::new(|k: Seq<char>| exists|a: int| 0 <= a < i && #[trigger] keys@[a]@ == k),
            decreases keys.len() - i,
        {
            out.insert(keys[i].clone());
            i += 1;
            assert(out@ =~= Set::new(|k: Seq<char>| exists|a: int| 0 <= a < i && #[trigger] keys@[a]@ == k));
        }
        assert(out@ =~= self@);
        out
    }
}

} // verus!
