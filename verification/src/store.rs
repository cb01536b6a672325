//! A small key-value table: the contracts keep their state in such tables,
//! one per kind of storage key.

use vstd::prelude::*;

verus! {

/// A key type whose equality can be decided at run time and agrees with
/// equality of its abstract view.
pub trait StoreKey: View + Sized {
    fn same_key(&self, other: &Self) -> (r: bool)
        ensures
            r == (self@ == other@),
    ;

    fn copy_key(&self) -> (r: Self)
        ensures
            r@ == self@,
    ;
}

impl StoreKey for u64 {
    fn same_key(&self, other: &Self) -> (r: bool) {
        *self == *other
    }

    fn copy_key(&self) -> (r: Self) {
        *self
    }
}

impl StoreKey for String {
    fn same_key(&self, other: &Self) -> (r: bool) {
        *self == *other
    }

    fn copy_key(&self) -> (r: Self) {
        self.clone()
    }
}

impl StoreKey for (u64, u32) {
    fn same_key(&self, other: &Self) -> (r: bool) {
        self.0 == other.0 && self.1 == other.1
    }

    fn copy_key(&self) -> (r: Self) {
        (self.0, self.1)
    }
}

impl StoreKey for (u64, String) {
    fn same_key(&self, other: &Self) -> (r: bool) {
        self.0 == other.0 && self.1 == other.1
    }

    fn copy_key(&self) -> (r: Self) {
        (self.0, self.1.clone())
    }
}

impl StoreKey for (String, String) {
    fn same_key(&self, other: &Self) -> (r: bool) {
        self.0 == other.0 && self.1 == other.1
    }

    fn copy_key(&self) -> (r: Self) {
        (self.0.clone(), self.1.clone())
    }
}

impl StoreKey for (u64, u32, String) {
    fn same_key(&self, other: &Self) -> (r: bool) {
        self.0 == other.0 && self.1 == other.1 && self.2 == other.2
    }

    fn copy_key(&self) -> (r: Self) {
        (self.0, self.1, self.2.clone())
    }
}

/// A table from keys to values in which each key occurs at most once.
pub struct Store<K, V> {
    entries: Vec<(K, V)>,
}

impl<K: StoreKey, V> Store<K, V> {
    /// No key occurs twice.
    pub closed spec fn wf(&self) -> bool {
        forall|i: int, j: int|
            #![trigger self.entries@[i], self.entries@[j]]
            0 <= i < j < self.entries@.len() ==> self.entries@[i].0@ != self.entries@[j].0@
    }

    spec fn at(&self, k: K::V, i: int) -> bool {
        0 <= i < self.entries@.len() && self.entries@[i].0@ == k
    }

    /// The table's contents, keyed by the view of each key.
    pub closed spec fn map(&self) -> Map<K::V, V> {
        Map::new(
            |k: K::V| exists|i: int| self.at(k, i),
            |k: K::V| self.entries@[choose|i: int| self.at(k, i)].1,
        )
    }

    proof fn lemma_entry(&self, i: int)
        requires
            self.wf(),
            0 <= i < self.entries@.len(),
        ensures
            self.map().contains_key(self.entries@[i].0@),
            self.map()[self.entries@[i].0@] == self.entries@[i].1,
    {
        let k = self.entries@[i].0@;
        assert(self.at(k, i));
        let j = choose|j: int| self.at(k, j);
        if j != i {
            if i < j {
                assert(self.entries@[i].0@ != self.entries@[j].0@);
            } else {
                assert(self.entries@[j].0@ != self.entries@[i].0@);
            }
        }
    }

    proof fn lemma_absent(&self, k: K::V)
        requires
            forall|i: int| 0 <= i < self.entries@.len() ==> self.entries@[i].0@ != k,
        ensures
            !self.map().contains_key(k),
    {
    }

    /// Number of stored entries.
    pub fn len(&self) -> (n: usize)
        requires
            self.wf(),
        ensures
            n == self.map().dom().len(),
            self.map().dom().finite(),
    {
        proof {
            self.lemma_dom_len();
        }
        self.entries.len()
    }

    /// The `i`-th stored entry, in storage order; each key appears at exactly
    /// one position below `len()`.
    pub fn entry_at(&self, i: usize) -> (r: (&K, &V))
        requires
            self.wf(),
            i < self.map().dom().len(),
        ensures
            self.map().contains_key(r.0@),
            self.map()[r.0@] == *r.1,
    {
        proof {
            self.lemma_dom_len();
            self.lemma_entry(i as int);
        }
        (&self.entries[i].0, &self.entries[i].1)
    }

    proof fn lemma_dom_len(&self)
        requires
            self.wf(),
        ensures
            self.map().dom().finite(),
            self.map().dom().len() == self.entries@.len(),
        decreases self.entries@.len(),
    {
        let n = self.entries@.len();
        let keys = self.entries@.map_values(|e: (K, V)| e.0@);
        assert(keys.no_duplicates()) by {
            assert forall|i: int, j: int| 0 <= i < keys.len() && 0 <= j < keys.len() && i != j implies keys[i] != keys[j] by {
                if i < j {
                    assert(self.entries@[i].0@ != self.entries@[j].0@);
                } else {
                    assert(self.entries@[j].0@ != self.entries@[i].0@);
                }
            }
        }
        keys.unique_seq_to_set();
        assert(self.map().dom() =~= keys.to_set()) by {
            assert forall|k: K::V| self.map().dom().contains(k) implies keys.to_set().contains(k) by {
                let i = choose|i: int| self.at(k, i);
                assert(keys[i] == k);
            }
            assert forall|k: K::V| keys.to_set().contains(k) implies self.map().dom().contains(k) by {
                let i = choose|i: int| 0 <= i < keys.len() && keys[i] == k;
                assert(self.at(k, i));
            }
        }
    }

    /// An empty table.
    pub fn new() -> (s: Self)
        ensures
            s.wf(),
            s.map() == Map::<K::V, V>::empty(),
    {
        let s = Store { entries: Vec::new() };
        assert(s.map() =~= Map::<K::V, V>::empty());
        s
    }

    fn find(&self, k: &K) -> (r: Option<usize>)
        requires
            self.wf(),
        ensures
            r matches Some(i) ==> self.at(k@, i as int),
            r is None ==> forall|i: int|
                0 <= i < self.entries@.len() ==> self.entries@[i].0@ != k@,
    {
        let mut i: usize = 0;
        while i < self.entries.len()
            invariant
                i <= self.entries@.len(),
                forall|j: int| 0 <= j < i ==> self.entries@[j].0@ != k@,
            decreases self.entries@.len() - i,
        {
            if self.entries[i].0.same_key(k) {
                return Some(i);
            }
            i = i + 1;
        }
        None
    }

    /// The value stored under `k`, if any.
    pub fn get(&self, k: &K) -> (r: Option<&V>)
        requires
            self.wf(),
        ensures
            r == (if self.map().contains_key(k@) {
                Some(&self.map()[k@])
            } else {
                None::<&V>
            }),
    {
        match self.find(k) {
            Some(i) => {
                proof {
                    self.lemma_entry(i as int);
                }
                Some(&self.entries[i].1)
            },
            None => {
                proof {
                    self.lemma_absent(k@);
                }
                None
            },
        }
    }

    /// Whether a value is stored under `k`.
    pub fn contains(&self, k: &K) -> (r: bool)
        requires
            self.wf(),
        ensures
            r == self.map().contains_key(k@),
    {
        match self.find(k) {
            Some(i) => {
                proof {
                    self.lemma_entry(i as int);
                }
                true
            },
            None => {
                proof {
                    self.lemma_absent(k@);
                }
                false
            },
        }
    }

    /// Stores `v` under `k`, replacing any earlier value.
    pub fn set(&mut self, k: K, v: V)
        requires
            old(self).wf(),
        ensures
            final(self).wf(),
            final(self).map() == old(self).map().insert(k@, v),
    {
        let ghost old_self = *self;
        let ghost kv = k@;
        match self.find(&k) {
            Some(i) => {
                self.entries.set(i, (k, v));
                proof {
                    assert forall|i1: int, j1: int|
                        #![trigger self.entries@[i1], self.entries@[j1]]
                        0 <= i1 < j1 < self.entries@.len() implies self.entries@[i1].0@
                        != self.entries@[j1].0@ by {
                        assert(old_self.entries@[i1].0@ != old_self.entries@[j1].0@);
                    }
                    assert forall|key: K::V| #[trigger]
                        self.map().contains_key(key) == old_self.map().insert(
                            kv,
                            v,
                        ).contains_key(key) by {
                        if self.map().contains_key(key) {
                            let j = choose|j: int| self.at(key, j);
                            if key != kv {
                                assert(old_self.at(key, j));
                            }
                        }
                        if key == kv {
                            assert(self.at(key, i as int));
                        } else if old_self.map().contains_key(key) {
                            let j = choose|j: int| old_self.at(key, j);
                            assert(self.at(key, j));
                        }
                    }
                    assert forall|key: K::V| #[trigger]
                        self.map().contains_key(key) implies self.map()[key] == old_self.map().insert(
                            kv,
                            v,
                        )[key] by {
                        let j = choose|j: int| self.at(key, j);
                        self.lemma_entry(j);
                        if key != kv {
                            assert(old_self.at(key, j));
                            old_self.lemma_entry(j);
                        }
                    }
                    assert(self.map() =~= old_self.map().insert(kv, v));
                }
            },
            None => {
                self.entries.push((k, v));
                proof {
                    let n = old_self.entries@.len() as int;
                    assert forall|i1: int, j1: int|
                        #![trigger self.entries@[i1], self.entries@[j1]]
                        0 <= i1 < j1 < self.entries@.len() implies self.entries@[i1].0@
                        != self.entries@[j1].0@ by {
                        if j1 < n {
                            assert(old_self.entries@[i1].0@ != old_self.entries@[j1].0@);
                        }
                    }
                    assert forall|key: K::V| #[trigger]
                        self.map().contains_key(key) == old_self.map().insert(
                            kv,
                            v,
                        ).contains_key(key) by {
                        if self.map().contains_key(key) {
                            let j = choose|j: int| self.at(key, j);
                            if key != kv {
                                assert(old_self.at(key, j));
                            }
                        }
                        if key == kv {
                            assert(self.at(key, n));
                        } else if old_self.map().contains_key(key) {
                            let j = choose|j: int| old_self.at(key, j);
                            assert(self.at(key, j));
                        }
                    }
                    assert forall|key: K::V| #[trigger]
                        self.map().contains_key(key) implies self.map()[key] == old_self.map().insert(
                            kv,
                            v,
                        )[key] by {
                        let j = choose|j: int| self.at(key, j);
                        self.lemma_entry(j);
                        if key != kv {
                            assert(old_self.at(key, j));
                            old_self.lemma_entry(j);
                        }
                    }
                    assert(self.map() =~= old_self.map().insert(kv, v));
                }
            },
        }
    }

    /// Removes whatever is stored under `k`.
    pub fn remove(&mut self, k: &K)
        requires
            old(self).wf(),
        ensures
            final(self).wf(),
            final(self).map() == old(self).map().remove(k@),
    {
        let ghost old_self = *self;
        match self.find(k) {
            Some(i) => {
                self.entries.remove(i);
                proof {
                    let ii = i as int;
                    assert forall|i1: int, j1: int|
                        #![trigger self.entries@[i1], self.entries@[j1]]
                        0 <= i1 < j1 < self.entries@.len() implies self.entries@[i1].0@
                        != self.entries@[j1].0@ by {
                        let a = if i1 < ii { i1 } else { i1 + 1 };
                        let b = if j1 < ii { j1 } else { j1 + 1 };
                        assert(self.entries@[i1] == old_self.entries@[a]);
                        assert(self.entries@[j1] == old_self.entries@[b]);
                        assert(old_self.entries@[a].0@ != old_self.entries@[b].0@);
                    }
                    assert forall|key: K::V| #[trigger]
                        self.map().contains_key(key) == old_self.map().remove(k@).contains_key(
                            key,
                        ) by {
                        if self.map().contains_key(key) {
                            let j = choose|j: int| self.at(key, j);
                            let a = if j < ii { j } else { j + 1 };
                            assert(old_self.at(key, a));
                            if key == k@ {
                                if a < ii {
                                    assert(old_self.entries@[a].0@ != old_self.entries@[ii].0@);
                                } else {
                                    assert(old_self.entries@[ii].0@ != old_self.entries@[a].0@);
                                }
                            }
                        }
                        if old_self.map().remove(k@).contains_key(key) {
                            let j = choose|j: int| old_self.at(key, j);
                            assert(j != ii);
                            let b = if j < ii { j } else { j - 1 };
                            assert(self.entries@[b] == old_self.entries@[j]);
                            assert(self.at(key, b));
                        }
                    }
                    assert forall|key: K::V| #[trigger]
                        self.map().contains_key(key) implies self.map()[key] == old_self.map().remove(
                            k@,
                        )[key] by {
                        let j = choose|j: int| self.at(key, j);
                        self.lemma_entry(j);
                        let a = if j < ii { j } else { j + 1 };
                        assert(self.entries@[j] == old_self.entries@[a]);
                        old_self.lemma_entry(a);
                    }
                    assert(self.map() =~= old_self.map().remove(k@));
                }
            },
            None => {
                proof {
                    old_self.lemma_absent(k@);
                    assert(self.map() =~= old_self.map().remove(k@));
                }
            },
        }
    }
}

} // verus!
