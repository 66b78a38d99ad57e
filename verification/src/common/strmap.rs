//! A map keyed by strings, with an exact `Map` view. Entries are kept in a vector; the
//! order in which keys are listed is unspecified, as it is for a hash map.
use vstd::prelude::*;
use crate::common::text::str_eq;

verus! {

/// `entries` list `m` exactly: distinct keys, one entry per key of `m`, same values.
pub closed spec fn entries_match<V>(entries: Seq<(String, V)>, m: Map<Seq<char>, V>) -> bool {
    &&& forall|i: int, j: int|
        0 <= i < j < entries.len() ==> #[trigger] entries[i].0@ != #[trigger] entries[j].0@
    &&& forall|i: int|
        0 <= i < entries.len() ==> #[trigger] m.contains_key(entries[i].0@) && m[entries[i].0@]
            == entries[i].1
    &&& forall|k: Seq<char>|
        #[trigger] m.contains_key(k) ==> exists|i: int| 0 <= i < entries.len() && #[trigger] entries[i].0@ == k
    &&& m.dom().finite()
    &&& m.dom().len() == entries.len()
}

/// A string-keyed map.
pub struct StrMap<V> {
    entries: Vec<(String, V)>,
    contents: Ghost<Map<Seq<char>, V>>,
}

impl<V> StrMap<V> {
    #[verifier::type_invariant]
    spec fn well_formed(self) -> bool {
        entries_match(self.entries@, self.contents@)
    }

    /// The map's contents.
    pub closed spec fn view(&self) -> Map<Seq<char>, V> {
        self.contents@
    }

    /// An empty map.
    pub fn new() -> (m: StrMap<V>)
        ensures
            m@ == Map::<Seq<char>, V>::empty(),
    {
        StrMap { entries: Vec::new(), contents: Ghost(Map::empty()) }
    }

    /// Number of entries.
    pub fn len(&self) -> (n: usize)
        ensures
            n == self@.dom().len(),
            self@.dom().finite(),
    {
        proof {
            use_type_invariant(self);
        }
        self.entries.len()
    }

    fn find(&self, key: &str) -> (r: Option<usize>)
        ensures
            match r {
                Some(i) => i < self.entries@.len() && self.entries@[i as int].0@ == key@,
                None => !self@.contains_key(key@),
            },
    {
        proof {
            use_type_invariant(self);
        }
        let mut i: usize = 0;
        while i < self.entries.len()
            invariant
                i <= self.entries.len(),
                forall|j: int| 0 <= j < i ==> self.entries@[j].0@ != key@,
            decreases self.entries.len() - i,
        {
            if str_eq(self.entries[i].0.as_str(), key) {
                return Some(i);
            }
            i += 1;
        }
        None
    }

    /// The value under `key`.
    pub fn get(&self, key: &str) -> (v: Option<&V>)
        ensures
            match v {
                Some(x) => self@.contains_key(key@) && *x == self@[key@],
                None => !self@.contains_key(key@),
            },
    {
        proof {
            use_type_invariant(self);
        }
        match self.find(key) {
            Some(i) => {
                assert(self.contents@.contains_key(self.entries@[i as int].0@));
                Some(&self.entries[i].1)
            },
            None => None,
        }
    }

    /// Whether `key` has an entry.
    pub fn contains_key(&self, key: &str) -> (yes: bool)
        ensures
            yes == self@.contains_key(key@),
    {
        proof {
            use_type_invariant(self);
        }
        match self.find(key) {
            Some(i) => {
                assert(self.contents@.contains_key(self.entries@[i as int].0@));
                true
            },
            None => false,
        }
    }

    /// Puts `value` under `key`, replacing and returning what was there.
    pub fn insert(&mut self, key: String, value: V) -> (previous: Option<V>)
        ensures
            final(self)@ == old(self)@.insert(key@, value),
            match previous {
                Some(p) => old(self)@.contains_key(key@) && p == old(self)@[key@],
                None => !old(self)@.contains_key(key@),
            },
    {
        proof {
            use_type_invariant(&*self);
        }
        let ghost k = key@;
        let ghost before = self.contents@;
        let found = self.find(key.as_str());
        let mut this = StrMap::<V>::new();
        std::mem::swap(&mut this, self);
        let StrMap { entries: mut entries, contents: _ } = this;
        assert(entries@ == old(self).entries@);
        match found {
            Some(i) => {
                let (old_key, old_value) = entries.swap_remove(i);
                entries.push((old_key, value));
                let ghost updated = before.insert(k, value);
                proof {
                    let n = entries@.len();
                    assert forall|a: int, b: int|
                        0 <= a < b < n implies #[trigger] entries@[a].0@
                        != #[trigger] entries@[b].0@ by {
                        if b == n - 1 {
                            if a == i as int {
                                assert(entries@[a] == old(self).entries@[n - 1]);
                            } else {
                                assert(entries@[a] == old(self).entries@[a]);
                            }
                        } else {
                            if a == i as int {
                                assert(entries@[a] == old(self).entries@[n - 1]);
                            } else {
                                assert(entries@[a] == old(self).entries@[a]);
                            }
                            if b == i as int {
                                assert(entries@[b] == old(self).entries@[n - 1]);
                            } else {
                                assert(entries@[b] == old(self).entries@[b]);
                            }
                        }
                    }
                    assert forall|a: int| 0 <= a < n implies #[trigger] updated.contains_key(
                        entries@[a].0@,
                    ) && updated[entries@[a].0@] == entries@[a].1 by {
                        if a == n - 1 {
                        } else if a == i as int {
                            assert(entries@[a] == old(self).entries@[n - 1]);
                            assert(old(self).entries@[n - 1].0@ != old(self).entries@[a].0@);
                            assert(before.contains_key(old(self).entries@[n - 1].0@));
                        } else {
                            assert(entries@[a] == old(self).entries@[a]);
                            assert(old(self).entries@[i as int].0@ != old(self).entries@[a].0@);
                            assert(before.contains_key(old(self).entries@[a].0@));
                        }
                    }
                    assert forall|q: Seq<char>| #[trigger] updated.contains_key(q) implies exists|
                        a: int,
                    | 0 <= a < n && #[trigger] entries@[a].0@ == q by {
                        if q == k {
                            assert(entries@[n - 1].0@ == q);
                        } else {
                            let a = choose|a: int|
                                0 <= a < old(self).entries@.len() && #[trigger] old(
                                    self,
                                ).entries@[a].0@ == q;
                            if a == n - 1 {
                                assert(entries@[i as int] == old(self).entries@[a]);
                            } else {
                                assert(entries@[a] == old(self).entries@[a]);
                            }
                        }
                    }
                    assert(updated.dom() =~= before.dom());
                }
                assert(entries_match(entries@, updated));
                *self = StrMap { entries, contents: Ghost(updated) };
                Some(old_value)
            },
            None => {
                entries.push((key, value));
                let ghost updated = before.insert(k, value);
                proof {
                    let n = entries@.len();
                    assert forall|a: int, b: int|
                        0 <= a < b < n implies #[trigger] entries@[a].0@
                        != #[trigger] entries@[b].0@ by {
                        assert(entries@[a] == old(self).entries@[a]);
                        if b < n - 1 {
                            assert(entries@[b] == old(self).entries@[b]);
                        } else {
                            assert(before.contains_key(entries@[a].0@));
                        }
                    }
                    assert forall|a: int| 0 <= a < n implies #[trigger] updated.contains_key(
                        entries@[a].0@,
                    ) && updated[entries@[a].0@] == entries@[a].1 by {
                        if a < n - 1 {
                            assert(entries@[a] == old(self).entries@[a]);
                            assert(before.contains_key(entries@[a].0@));
                        }
                    }
                    assert forall|q: Seq<char>| #[trigger] updated.contains_key(q) implies exists|
                        a: int,
                    | 0 <= a < n && #[trigger] entries@[a].0@ == q by {
                        if q == k {
                            assert(entries@[n - 1].0@ == q);
                        } else {
                            let a = choose|a: int|
                                0 <= a < old(self).entries@.len() && #[trigger] old(
                                    self,
                                ).entries@[a].0@ == q;
                            assert(entries@[a] == old(self).entries@[a]);
                        }
                    }
                    assert(updated.dom() =~= before.dom().insert(k));
                }
                assert(entries_match(entries@, updated));
                *self = StrMap { entries, contents: Ghost(updated) };
                None
            },
        }
    }

    /// Takes out and returns the value under `key`.
    pub fn remove(&mut self, key: &str) -> (removed: Option<V>)
        ensures
            final(self)@ == old(self)@.remove(key@),
            match removed {
                Some(v) => old(self)@.contains_key(key@) && v == old(self)@[key@],
                None => !old(self)@.contains_key(key@),
            },
    {
        proof {
            use_type_invariant(&*self);
        }
        let ghost before = self.contents@;
        match self.find(key) {
            Some(i) => {
                let mut this = StrMap::<V>::new();
                std::mem::swap(&mut this, self);
                let StrMap { entries: mut entries, contents: _ } = this;
                assert(entries@ == old(self).entries@);
                let (_k, v) = entries.swap_remove(i);
                let ghost updated = before.remove(key@);
                proof {
                    let n = entries@.len();
                    let on = old(self).entries@.len();
                    assert forall|a: int| 0 <= a < n implies #[trigger] entries@[a] == (if a
                        == i as int {
                        old(self).entries@[on - 1]
                    } else {
                        old(self).entries@[a]
                    }) by {}
                    assert forall|a: int, b: int|
                        0 <= a < b < n implies #[trigger] entries@[a].0@
                        != #[trigger] entries@[b].0@ by {
                        let oa = if a == i as int { on - 1 } else { a };
                        let ob = if b == i as int { on - 1 } else { b };
                        assert(entries@[a] == old(self).entries@[oa]);
                        assert(entries@[b] == old(self).entries@[ob]);
                    }
                    assert forall|a: int| 0 <= a < n implies #[trigger] updated.contains_key(
                        entries@[a].0@,
                    ) && updated[entries@[a].0@] == entries@[a].1 by {
                        let oa = if a == i as int { on - 1 } else { a };
                        assert(entries@[a] == old(self).entries@[oa]);
                        assert(oa != i as int);
                        assert(old(self).entries@[oa].0@ != old(self).entries@[i as int].0@);
                        assert(before.contains_key(old(self).entries@[oa].0@));
                    }
                    assert forall|q: Seq<char>| #[trigger] updated.contains_key(q) implies exists|
                        a: int,
                    | 0 <= a < n && #[trigger] entries@[a].0@ == q by {
                        let a = choose|a: int|
                            0 <= a < on && #[trigger] old(self).entries@[a].0@ == q;
                        if a == on - 1 {
                            assert(entries@[i as int] == old(self).entries@[a]);
                        } else {
                            assert(entries@[a] == old(self).entries@[a]);
                        }
                    }
                    assert(updated.dom() =~= before.dom().remove(key@));
                }
                assert(entries_match(entries@, updated));
                *self = StrMap { entries, contents: Ghost(updated) };
                Some(v)
            },
            None => {
                assert(before.remove(key@) =~= before);
                None
            },
        }
    }

    /// Removes every entry.
    pub fn clear(&mut self)
        ensures
            final(self)@ == Map::<Seq<char>, V>::empty(),
    {
        *self = StrMap::new();
    }

    /// The keys, each once, in listing order.
    pub fn keys(&self) -> (out: Vec<String>)
        ensures
            out@.len() == self@.dom().len(),
            self@.dom().finite(),
            forall|i: int| 0 <= i < out@.len() ==> self@.contains_key(#[trigger] out@[i]@),
            forall|k: Seq<char>|
                #[trigger] self@.contains_key(k) ==> exists|i: int|
                    0 <= i < out@.len() && #[trigger] out@[i]@ == k,
            forall|i: int, j: int|
                0 <= i < j < out@.len() ==> #[trigger] out@[i]@ != #[trigger] out@[j]@,
    {
        proof {
            use_type_invariant(self);
        }
        let mut out: Vec<String> = Vec::new();
        let mut i: usize = 0;
        while i < self.entries.len()
            invariant
                i <= self.entries.len(),
                out@.len() == i,
                forall|j: int| 0 <= j < i ==> (#[trigger] out@[j])@ == self.entries@[j].0@,
            decreases self.entries.len() - i,
        {
            out.push(self.entries[i].0.clone());
            i += 1;
        }
        proof {
            assert forall|k: Seq<char>| #[trigger] self@.contains_key(k) implies exists|j: int|
                0 <= j < out@.len() && #[trigger] out@[j]@ == k by {
                let j = choose|j: int| 0 <= j < self.entries@.len() && #[trigger] self.entries@[j].0@ == k;
                assert(out@[j]@ == k);
            }
            assert forall|a: int, b: int| 0 <= a < b < out@.len() implies #[trigger] out@[a]@
                != #[trigger] out@[b]@ by {
                assert(out@[a]@ == self.entries@[a].0@);
                assert(out@[b]@ == self.entries@[b].0@);
            }
        }
        out
    }
}

} // verus!
