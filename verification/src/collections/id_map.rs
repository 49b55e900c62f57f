//! A map keyed by an unsigned integer that keeps its keys in ascending order.

use vstd::prelude::*;

verus! {

/// A finite map from `u64` keys to values, held in ascending key order.
pub struct IdMap<V> {
    entries: Vec<(u64, V)>,
}

/// Whether `s` is strictly ascending.
pub open spec fn strictly_ascending(s: Seq<u64>) -> bool {
    forall|i: int, j: int| 0 <= i < j < s.len() ==> s[i] < s[j]
}

impl<V: View> View for IdMap<V> {
    type V = Map<u64, V::V>;

    /// The map from each key to its value's view.
    closed spec fn view(&self) -> Map<u64, V::V> {
        Map::new(
            |k: u64| self.keys().contains(k),
            |k: u64| self.entries@[self.keys().index_of(k)].1@,
        )
    }
}

impl<V: View> IdMap<V> {
    /// The keys, in ascending order.
    pub closed spec fn keys(&self) -> Seq<u64> {
        Seq::new(self.entries@.len(), |i: int| self.entries@[i].0)
    }

    /// The values, in the order of their keys.
    pub closed spec fn values(&self) -> Seq<V::V> {
        Seq::new(self.entries@.len(), |i: int| self.entries@[i].1@)
    }

    /// The keys ascend strictly, so none occurs twice.
    pub closed spec fn wf(&self) -> bool {
        strictly_ascending(self.keys())
    }

    /// What `keys`, `values` and the view have to do with one another.
    pub proof fn lemma_model(&self)
        requires
            self.wf(),
        ensures
            strictly_ascending(self.keys()),
            self.keys().no_duplicates(),
            self.keys().len() == self.values().len(),
            self@.dom() == self.keys().to_set(),
            self@.dom().finite(),
            self@.len() == self.keys().len(),
            forall|i: int|
                0 <= i < self.keys().len() ==> self@.contains_key(#[trigger] self.keys()[i])
                    && self@[self.keys()[i]] == self.values()[i],
            forall|k: u64| self@.contains_key(k) <==> self.keys().contains(k),
    {
        let keys = self.keys();
        assert(self@.dom() =~= keys.to_set());
        keys.unique_seq_to_set();
        assert forall|i: int| 0 <= i < keys.len() implies self@.contains_key(#[trigger] keys[i])
            && self@[keys[i]] == self.values()[i] by {
            self.lemma_index_of(i);
        }
    }

    proof fn lemma_index_of(&self, i: int)
        requires
            self.wf(),
            0 <= i < self.entries@.len(),
        ensures
            self.keys().contains(self.keys()[i]),
            self.keys().index_of(self.keys()[i]) == i,
    {
        let keys = self.keys();
        assert(keys[i] == keys[i]);
        let j = keys.index_of(keys[i]);
        assert(0 <= j < keys.len() && keys[j] == keys[i]);
        if j < i {
            assert(keys[j] < keys[i]);
        }
        if i < j {
            assert(keys[i] < keys[j]);
        }
    }

    /// An empty map.
    pub fn new() -> (r: Self)
        ensures
            r.wf(),
            r@ == Map::<u64, V::V>::empty(),
            r.keys() == Seq::<u64>::empty(),
    {
        let r = IdMap { entries: Vec::new() };
        assert(r.keys() =~= Seq::<u64>::empty());
        assert(r@ =~= Map::<u64, V::V>::empty());
        r
    }

    /// The number of keys.
    pub fn len(&self) -> (r: usize)
        requires
            self.wf(),
        ensures
            r == self@.len(),
            r == self.keys().len(),
    {
        proof {
            self.lemma_model();
        }
        self.entries.len()
    }

    /// The place of the first key that is not below `key`.
    fn lower_bound(&self, key: u64) -> (r: usize)
        requires
            self.wf(),
        ensures
            r <= self.entries@.len(),
            forall|j: int| 0 <= j < r ==> self.keys()[j] < key,
            forall|j: int| r <= j < self.entries@.len() ==> self.keys()[j] >= key,
    {
        let mut lo: usize = 0;
        let mut hi: usize = self.entries.len();
        while lo < hi
            invariant
                self.wf(),
                lo <= hi <= self.entries@.len(),
                forall|j: int| 0 <= j < lo ==> self.keys()[j] < key,
                forall|j: int| hi <= j < self.entries@.len() ==> self.keys()[j] >= key,
            decreases hi - lo,
        {
            let mid: usize = lo + (hi - lo) / 2;
            if self.entries[mid].0 < key {
                assert forall|j: int| 0 <= j < mid + 1 implies self.keys()[j] < key by {
                    if j < mid {
                        assert(self.keys()[j] < self.keys()[mid as int]);
                    }
                }
                lo = mid + 1;
            } else {
                assert forall|j: int| mid <= j < self.entries@.len() implies self.keys()[j]
                    >= key by {
                    if mid < j {
                        assert(self.keys()[mid as int] < self.keys()[j]);
                    }
                }
                hi = mid;
            }
        }
        lo
    }

    /// Where `key` stands among the keys, if it is one of them.
    fn position(&self, key: u64) -> (r: Option<usize>)
        requires
            self.wf(),
        ensures
            match r {
                Some(i) => i < self.entries@.len() && self.keys()[i as int] == key,
                None => !self.keys().contains(key),
            },
    {
        let i = self.lower_bound(key);
        if i < self.entries.len() && self.entries[i].0 == key {
            Some(i)
        } else {
            proof {
                if self.keys().contains(key) {
                    let j = self.keys().index_of(key);
                    if j < i {
                        assert(self.keys()[j] < key);
                    } else if j > i {
                        assert(self.keys()[i as int] < self.keys()[j]);
                    }
                }
            }
            None
        }
    }

    /// Whether `key` is in the map.
    pub fn contains_key(&self, key: u64) -> (r: bool)
        requires
            self.wf(),
        ensures
            r == self@.contains_key(key),
    {
        self.position(key).is_some()
    }

    /// The value under `key`, if there is one.
    pub fn get(&self, key: u64) -> (r: Option<&V>)
        requires
            self.wf(),
        ensures
            match r {
                Some(v) => self@.contains_key(key) && self@[key] == v@,
                None => !self@.contains_key(key),
            },
    {
        match self.position(key) {
            Some(i) => {
                proof {
                    self.lemma_index_of(i as int);
                }
                Some(&self.entries[i].1)
            },
            None => None,
        }
    }

    /// Puts `value` under `key`.
    pub fn insert(&mut self, key: u64, value: V)
        requires
            old(self).wf(),
        ensures
            final(self).wf(),
            final(self)@ == old(self)@.insert(key, value@),
    {
        let ghost before = *self;
        let i = self.lower_bound(key);
        if i < self.entries.len() && self.entries[i].0 == key {
            self.entries.set(i, (key, value));
            proof {
                assert(self.keys() =~= before.keys());
                assert forall|k: u64| self@.contains_key(k) implies #[trigger] self@[k]
                    == before@.insert(key, value@)[k] by {
                    let j = self.keys().index_of(k);
                    assert(self.keys().contains(k));
                    before.lemma_index_of(i as int);
                    if k == key {
                        assert(j == i);
                    }
                }
                assert(self@ =~= before@.insert(key, value@));
            }
        } else {
            self.entries.insert(i, (key, value));
            proof {
                assert(self.keys() =~= before.keys().insert(i as int, key));
                assert forall|a: int, b: int| 0 <= a < b < self.keys().len() implies self.keys()[a]
                    < self.keys()[b] by {
                    let a0 = if a < i { a } else { a - 1 };
                    let b0 = if b < i { b } else { b - 1 };
                    if a != i {
                        assert(self.keys()[a] == before.keys()[a0]);
                    }
                    if b != i {
                        assert(self.keys()[b] == before.keys()[b0]);
                    }
                    if a != i && b != i {
                        assert(before.keys()[a0] < before.keys()[b0]);
                    }
                }
                assert forall|k: u64| #[trigger]
                    self@.contains_key(k) == before@.insert(key, value@).contains_key(k) by {
                    if self.keys().contains(k) {
                        let j = self.keys().index_of(k);
                        if j != i {
                            let j0 = if j < i { j } else { j - 1 };
                            assert(before.keys()[j0] == k);
                        }
                    }
                    if before.keys().contains(k) {
                        let j0 = before.keys().index_of(k);
                        let j = if j0 < i { j0 } else { j0 + 1 };
                        assert(self.keys()[j] == k);
                    }
                    if k == key {
                        assert(self.keys()[i as int] == k);
                    }
                }
                assert forall|k: u64| self@.contains_key(k) implies #[trigger] self@[k]
                    == before@.insert(key, value@)[k] by {
                    let j = self.keys().index_of(k);
                    assert(self.keys().contains(k));
                    if k == key {
                        self.lemma_index_of(i as int);
                    } else {
                        assert(j != i);
                        let j0 = if j < i { j } else { j - 1 };
                        assert(before.keys()[j0] == k);
                        before.lemma_index_of(j0);
                    }
                }
                assert(self@ =~= before@.insert(key, value@));
            }
        }
    }

    /// Takes `key` and its value out of the map and hands the value back.
    pub fn remove(&mut self, key: u64) -> (r: Option<V>)
        requires
            old(self).wf(),
        ensures
            final(self).wf(),
            final(self)@ == old(self)@.remove(key),
            match r {
                Some(v) => old(self)@.contains_key(key) && old(self)@[key] == v@,
                None => !old(self)@.contains_key(key),
            },
    {
        let ghost before = *self;
        match self.position(key) {
            Some(i) => {
                let e = self.entries.remove(i);
                proof {
                    before.lemma_index_of(i as int);
                    assert(self.keys() =~= before.keys().remove(i as int));
                    assert forall|a: int, b: int| 0 <= a < b < self.keys().len() implies self.keys()[a]
                        < self.keys()[b] by {
                        let a0 = if a < i { a } else { a + 1 };
                        let b0 = if b < i { b } else { b + 1 };
                        assert(self.keys()[a] == before.keys()[a0]);
                        assert(self.keys()[b] == before.keys()[b0]);
                    }
                    assert forall|k: u64| #[trigger]
                        self@.contains_key(k) == before@.remove(key).contains_key(k) by {
                        if self.keys().contains(k) {
                            let j = self.keys().index_of(k);
                            let j0 = if j < i { j } else { j + 1 };
                            assert(before.keys()[j0] == k);
                            if k == key {
                                before.lemma_index_of(j0);
                            }
                        }
                        if before.keys().contains(k) && k != key {
                            let j0 = before.keys().index_of(k);
                            let j = if j0 < i { j0 } else { j0 - 1 };
                            assert(self.keys()[j] == k);
                        }
                    }
                    assert forall|k: u64| self@.contains_key(k) implies #[trigger] self@[k]
                        == before@.remove(key)[k] by {
                        let j = self.keys().index_of(k);
                        assert(self.keys().contains(k));
                        let j0 = if j < i { j } else { j + 1 };
                        assert(before.keys()[j0] == k);
                        before.lemma_index_of(j0);
                    }
                    assert(self@ =~= before@.remove(key));
                }
                Some(e.1)
            },
            None => {
                proof {
                    assert(self@ =~= before@.remove(key));
                }
                None
            },
        }
    }

    /// The key at place `i` of the ascending order.
    pub fn key_at(&self, i: usize) -> (r: u64)
        requires
            i < self.keys().len(),
        ensures
            r == self.keys()[i as int],
    {
        self.entries[i].0
    }

    /// The value at place `i` of the ascending order.
    pub fn value_at(&self, i: usize) -> (r: &V)
        requires
            i < self.keys().len(),
        ensures
            r@ == self.values()[i as int],
    {
        &self.entries[i].1
    }

    /// The place of the first key above `key`, or the number of keys where
    /// there is none.
    pub fn first_above(&self, key: u64) -> (r: usize)
        requires
            self.wf(),
        ensures
            r <= self.keys().len(),
            forall|j: int| 0 <= j < r ==> self.keys()[j] <= key,
            forall|j: int| r <= j < self.keys().len() ==> self.keys()[j] > key,
    {
        if key == u64::MAX {
            return self.entries.len();
        }
        self.lower_bound(key + 1)
    }
}

} // verus!
