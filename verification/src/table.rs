//! A keyed table: an association list whose keys are unique, read as a `Map`
//! from the keys' views to the stored values.
use vstd::prelude::*;

verus! {

/// A key that can be compared, by its view, in executable code.
pub trait TableKey: View + Sized {
    fn same_key(&self, other: &Self) -> (r: bool)
        ensures
            r == (self@ == other@),
    ;
}

impl TableKey for u64 {
    fn same_key(&self, other: &Self) -> (r: bool) {
        *self == *other
    }
}

/// Entries in insertion order; no two entries share a key.
pub struct Table<K: TableKey, V> {
    entries: Vec<(K, V)>,
}

impl<K: TableKey, V> Table<K, V> {
    #[verifier::type_invariant]
    spec fn keys_unique(self) -> bool {
        forall|i: int, j: int|
            0 <= i < self.entries.len() && 0 <= j < self.entries.len() && i != j
                ==> self.entries@[i].0@ != self.entries@[j].0@
    }

    spec fn has(self, k: K::V) -> bool {
        exists|i: int| 0 <= i < self.entries.len() && self.entries@[i].0@ == k
    }

    spec fn slot(self, k: K::V) -> int {
        choose|i: int| 0 <= i < self.entries.len() && self.entries@[i].0@ == k
    }

    /// The table as a map from key views to values.
    pub closed spec fn contents(self) -> Map<K::V, V> {
        Map::new(|k: K::V| self.has(k), |k: K::V| self.entries@[self.slot(k)].1)
    }

    proof fn lemma_slot(self, i: int)
        requires
            self.keys_unique(),
            0 <= i < self.entries.len(),
        ensures
            self.has(self.entries@[i].0@),
            self.slot(self.entries@[i].0@) == i,
    {
        let k = self.entries@[i].0@;
        assert(self.has(k));
        let j = self.slot(k);
        assert(0 <= j < self.entries.len() && self.entries@[j].0@ == k);
    }

    pub fn new() -> (t: Self)
        ensures
            t.contents() == Map::<K::V, V>::empty(),
    {
        let t = Table { entries: Vec::new() };
        assert(t.contents() =~= Map::<K::V, V>::empty());
        t
    }

    fn find(&self, k: &K) -> (r: Option<usize>)
        ensures
            match r {
                Some(i) => i < self.entries.len() && self.entries@[i as int].0@ == k@,
                None => !self.has(k@),
            },
    {
        let mut i: usize = 0;
        while i < self.entries.len()
            invariant
                i <= self.entries.len(),
                forall|j: int| 0 <= j < i ==> self.entries@[j].0@ != k@,
            decreases self.entries.len() - i,
        {
            if self.entries[i].0.same_key(k) {
                return Some(i);
            }
            i += 1;
        }
        None
    }

    /// The value stored under `k`, if any.
    pub fn get(&self, k: &K) -> (r: Option<&V>)
        ensures
            match r {
                Some(v) => self.contents().contains_key(k@) && *v == self.contents()[k@],
                None => !self.contents().contains_key(k@),
            },
    {
        proof {
            use_type_invariant(self);
        }
        match self.find(k) {
            Some(i) => {
                proof {
                    self.lemma_slot(i as int);
                }
                Some(&self.entries[i].1)
            },
            None => None,
        }
    }

    /// Whether a value is stored under `k`.
    pub fn contains(&self, k: &K) -> (r: bool)
        ensures
            r == self.contents().contains_key(k@),
    {
        proof {
            use_type_invariant(self);
        }
        match self.find(k) {
            Some(i) => {
                proof {
                    self.lemma_slot(i as int);
                }
                true
            },
            None => false,
        }
    }

    /// Stores `v` under `k`, replacing what was stored there.
    pub fn insert(&mut self, k: K, v: V)
        ensures
            final(self).contents() == old(self).contents().insert(k@, v),
    {
        proof {
            use_type_invariant(&*self);
        }
        let pos = self.find(&k);
        let ghost kv = k@;
        let ghost o = *self;
        let mut entries: Vec<(K, V)> = Vec::new();
        std::mem::swap(&mut entries, &mut self.entries);
                match pos {
            Some(i) => {
                entries.set(i, (k, v));
                proof {
                let t = Table { entries };
                assert(t.keys_unique()) by {
                    assert forall|a: int, b: int|
                        0 <= a < t.entries.len() && 0 <= b < t.entries.len() && a != b
                        implies t.entries@[a].0@ != t.entries@[b].0@ by {
                        assert(o.entries@[a].0@ != o.entries@[b].0@);
                    }
                }
                assert forall|kk: K::V| #[trigger] t.has(kk) == o.has(kk) by {
                    if o.has(kk) {
                        let w = o.slot(kk);
                        assert(t.entries@[w].0@ == kk);
                    }
                    if t.has(kk) {
                        let w = t.slot(kk);
                        assert(o.entries@[w].0@ == kk);
                    }
                }
                assert forall|kk: K::V| o.has(kk) implies #[trigger] t.slot(kk) == o.slot(kk) by {
                    o.lemma_slot(o.slot(kk));
                    t.lemma_slot(o.slot(kk));
                }
                t.lemma_slot(i as int);
                assert(t.contents() =~= o.contents().insert(kv, v));
                }
            },
            None => {
                entries.push((k, v));
                proof {
                let t = Table { entries };
                let n = o.entries.len() as int;
                assert(t.keys_unique()) by {
                    assert forall|a: int, b: int|
                        0 <= a < t.entries.len() && 0 <= b < t.entries.len() && a != b
                        implies t.entries@[a].0@ != t.entries@[b].0@ by {
                        if a < n && b < n {
                            assert(o.entries@[a].0@ != o.entries@[b].0@);
                        } else if a < n {
                            assert(o.entries@[a].0@ != kv);
                        } else {
                            assert(o.entries@[b].0@ != kv);
                        }
                    }
                }
                assert forall|kk: K::V| #[trigger] t.has(kk) == (o.has(kk) || kk == kv) by {
                    if o.has(kk) {
                        let w = o.slot(kk);
                        assert(t.entries@[w].0@ == kk);
                    }
                    if kk == kv {
                        assert(t.entries@[n].0@ == kk);
                    }
                    if t.has(kk) && kk != kv {
                        let w = t.slot(kk);
                        assert(w < n);
                        assert(o.entries@[w].0@ == kk);
                    }
                }
                assert forall|kk: K::V| o.has(kk) implies #[trigger] t.slot(kk) == o.slot(kk) by {
                    o.lemma_slot(o.slot(kk));
                    t.lemma_slot(o.slot(kk));
                }
                t.lemma_slot(n);
                assert(t.contents() =~= o.contents().insert(kv, v));
                }
            },
        }
        self.entries = entries;
    }

    /// The stored entries, each key once, in the order the keys were first
    /// stored.
    pub fn entries(&self) -> (r: &Vec<(K, V)>)
        ensures
            forall|i: int|
                0 <= i < r.len() ==> self.contents().contains_key(#[trigger] r@[i].0@)
                    && self.contents()[r@[i].0@] == r@[i].1,
            forall|k: K::V|
                #[trigger] self.contents().contains_key(k) ==> exists|i: int|
                    0 <= i < r.len() && r@[i].0@ == k,
            forall|i: int, j: int|
                0 <= i < r.len() && 0 <= j < r.len() && i != j ==> r@[i].0@ != r@[j].0@,
    {
        proof {
            use_type_invariant(self);
            assert forall|i: int| 0 <= i < self.entries.len() implies self.contents().contains_key(
                #[trigger] self.entries@[i].0@,
            ) && self.contents()[self.entries@[i].0@] == self.entries@[i].1 by {
                self.lemma_slot(i);
            }
        }
        &self.entries
    }
}

} // verus!
