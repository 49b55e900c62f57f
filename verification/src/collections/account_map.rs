//! A map keyed by account that remembers the order in which its keys came.
//!
//! Its model is the sequence of its entries, each a key with its value, in
//! the order in which the keys were first inserted. `lookup`, `put` and
//! `del` say what reading, writing and deleting mean on such a sequence.

use vstd::prelude::*;
use crate::types::account::{Account, AccountView};

verus! {

/// No key occurs twice among the entries.
pub open spec fn distinct_keys<K, V>(s: Seq<(K, V)>) -> bool {
    forall|i: int, j: int| 0 <= i < j < s.len() ==> s[i].0 != s[j].0
}

/// Whether `k` is the key of an entry.
pub open spec fn has_key<K, V>(s: Seq<(K, V)>, k: K) -> bool {
    exists|i: int| 0 <= i < s.len() && #[trigger] s[i].0 == k
}

/// The place of an entry with key `k`.
pub open spec fn key_index<K, V>(s: Seq<(K, V)>, k: K) -> int {
    choose|i: int| 0 <= i < s.len() && #[trigger] s[i].0 == k
}

/// The value under `k`, if there is one.
pub open spec fn lookup<K, V>(s: Seq<(K, V)>, k: K) -> Option<V> {
    if has_key(s, k) {
        Some(s[key_index(s, k)].1)
    } else {
        None
    }
}

/// The entries once `v` has been put under `k`: in the place of the old
/// entry where `k` was a key, and at the end where it was not.
pub open spec fn put<K, V>(s: Seq<(K, V)>, k: K, v: V) -> Seq<(K, V)> {
    if has_key(s, k) {
        s.update(key_index(s, k), (k, v))
    } else {
        s.push((k, v))
    }
}

/// The entries without that of `k`.
pub open spec fn del<K, V>(s: Seq<(K, V)>, k: K) -> Seq<(K, V)> {
    if has_key(s, k) {
        s.remove(key_index(s, k))
    } else {
        s
    }
}

/// Among distinct keys, the entry at `i` is the one that its key finds.
pub proof fn lemma_key_index<K, V>(s: Seq<(K, V)>, i: int)
    requires
        distinct_keys(s),
        0 <= i < s.len(),
    ensures
        has_key(s, s[i].0),
        key_index(s, s[i].0) == i,
        lookup(s, s[i].0) == Some(s[i].1),
{
    assert(s[i].0 == s[i].0);
    let j = key_index(s, s[i].0);
    assert(0 <= j < s.len() && s[j].0 == s[i].0);
}

/// Writing keeps the keys distinct, and is read back: the key written
/// holds the new value, every other key what it held.
pub proof fn lemma_put<K, V>(s: Seq<(K, V)>, k: K, v: V)
    requires
        distinct_keys(s),
    ensures
        distinct_keys(put(s, k, v)),
        lookup(put(s, k, v), k) == Some(v),
        forall|other: K| other != k ==> lookup(put(s, k, v), other) == lookup(s, other),
        put(s, k, v).len() == if has_key(s, k) { s.len() } else { s.len() + 1 },
{
    let t = put(s, k, v);
    if has_key(s, k) {
        let i = key_index(s, k);
        assert forall|a: int, b: int| 0 <= a < b < t.len() implies t[a].0 != t[b].0 by {
            assert(t[a].0 == s[a].0);
            assert(t[b].0 == s[b].0);
        }
        assert(t[i].0 == k);
        lemma_key_index(t, i);
        assert forall|other: K| other != k implies lookup(t, other) == lookup(s, other) by {
            if has_key(s, other) {
                let j = key_index(s, other);
                assert(t[j].0 == other);
                lemma_key_index(t, j);
            }
            if has_key(t, other) {
                let j = key_index(t, other);
                assert(s[j].0 == other);
                lemma_key_index(s, j);
            }
        }
    } else {
        let n = s.len() as int;
        assert forall|a: int, b: int| 0 <= a < b < t.len() implies t[a].0 != t[b].0 by {
            if b < n {
                assert(t[a].0 == s[a].0 && t[b].0 == s[b].0);
            } else {
                assert(t[a].0 == s[a].0);
            }
        }
        assert(t[n].0 == k);
        lemma_key_index(t, n);
        assert forall|other: K| other != k implies lookup(t, other) == lookup(s, other) by {
            if has_key(s, other) {
                let j = key_index(s, other);
                assert(t[j].0 == other);
                lemma_key_index(t, j);
            }
            if has_key(t, other) {
                let j = key_index(t, other);
                assert(j < n);
                assert(s[j].0 == other);
                lemma_key_index(s, j);
            }
        }
    }
}

/// Writing twice under one key is writing the second value once.
pub proof fn lemma_put_twice<K, V>(s: Seq<(K, V)>, k: K, a: V, b: V)
    requires
        distinct_keys(s),
    ensures
        put(put(s, k, a), k, b) == put(s, k, b),
{
    let t = put(s, k, a);
    lemma_put(s, k, a);
    if has_key(s, k) {
        let i = key_index(s, k);
        assert(t[i].0 == k);
        lemma_key_index(t, i);
        assert(put(t, k, b) =~= put(s, k, b));
    } else {
        let n = s.len() as int;
        assert(t[n].0 == k);
        lemma_key_index(t, n);
        assert(put(t, k, b) =~= put(s, k, b));
    }
}

/// Deleting a key undoes a write under it.
pub proof fn lemma_del_after_put<K, V>(s: Seq<(K, V)>, k: K, a: V)
    requires
        distinct_keys(s),
    ensures
        del(put(s, k, a), k) == del(s, k),
{
    let t = put(s, k, a);
    lemma_put(s, k, a);
    if has_key(s, k) {
        let i = key_index(s, k);
        assert(t[i].0 == k);
        lemma_key_index(t, i);
        assert(del(t, k) =~= del(s, k));
    } else {
        let n = s.len() as int;
        assert(t[n].0 == k);
        lemma_key_index(t, n);
        assert(del(t, k) =~= del(s, k));
    }
}

/// Every entry that writing leaves was an entry before, or is the one
/// written.
pub proof fn lemma_put_keeps<K, V>(s: Seq<(K, V)>, k: K, v: V)
    ensures
        forall|i: int|
            0 <= i < put(s, k, v).len() ==> s.contains(#[trigger] put(s, k, v)[i]) || put(s, k, v)[i]
                == (k, v),
{
    assert forall|i: int| 0 <= i < put(s, k, v).len() implies s.contains(#[trigger] put(s, k, v)[i])
        || put(s, k, v)[i] == (k, v) by {
        if put(s, k, v)[i] != (k, v) {
            assert(s[i] == put(s, k, v)[i]);
        }
    }
}

/// Every entry that deleting leaves was an entry before.
pub proof fn lemma_del_keeps<K, V>(s: Seq<(K, V)>, k: K)
    ensures
        forall|i: int| 0 <= i < del(s, k).len() ==> s.contains(#[trigger] del(s, k)[i]),
{
    if has_key(s, k) {
        let at = key_index(s, k);
        assert forall|i: int| 0 <= i < del(s, k).len() implies s.contains(#[trigger] del(s, k)[i]) by {
            let i0 = if i < at { i } else { i + 1 };
            assert(s[i0] == del(s, k)[i]);
        }
    } else {
        assert forall|i: int| 0 <= i < del(s, k).len() implies s.contains(#[trigger] del(s, k)[i]) by {
            assert(s[i] == del(s, k)[i]);
        }
    }
}

/// Deleting keeps the keys distinct, takes the key away and leaves every
/// other key what it held.
pub proof fn lemma_del<K, V>(s: Seq<(K, V)>, k: K)
    requires
        distinct_keys(s),
    ensures
        distinct_keys(del(s, k)),
        lookup(del(s, k), k) is None,
        forall|other: K| other != k ==> lookup(del(s, k), other) == lookup(s, other),
        del(s, k).len() == if has_key(s, k) { s.len() - 1 } else { s.len() as int },
{
    let t = del(s, k);
    if has_key(s, k) {
        let i = key_index(s, k);
        assert forall|a: int, b: int| 0 <= a < b < t.len() implies t[a].0 != t[b].0 by {
            let a0 = if a < i { a } else { a + 1 };
            let b0 = if b < i { b } else { b + 1 };
            assert(t[a] == s[a0] && t[b] == s[b0]);
        }
        if has_key(t, k) {
            let j = key_index(t, k);
            let j0 = if j < i { j } else { j + 1 };
            assert(t[j] == s[j0]);
            lemma_key_index(s, j0);
        }
        assert forall|other: K| other != k implies lookup(t, other) == lookup(s, other) by {
            if has_key(s, other) {
                let j0 = key_index(s, other);
                let j = if j0 < i { j0 } else { j0 - 1 };
                assert(t[j] == s[j0]);
                lemma_key_index(t, j);
            }
            if has_key(t, other) {
                let j = key_index(t, other);
                let j0 = if j < i { j } else { j + 1 };
                assert(t[j] == s[j0]);
                lemma_key_index(s, j0);
            }
        }
    }
}

/// A finite map from accounts to values. Keys are told apart by their
/// views; the entries stay in the order in which their keys were first
/// inserted.
pub struct AccountMap<V> {
    entries: Vec<(Account, V)>,
}

impl<V: View> View for AccountMap<V> {
    type V = Seq<(AccountView, V::V)>;

    /// The entries, in insertion order, each key and value by its view.
    closed spec fn view(&self) -> Seq<(AccountView, V::V)> {
        Seq::new(self.entries@.len(), |i: int| (self.entries@[i].0@, self.entries@[i].1@))
    }
}

impl<V: View> AccountMap<V> {
    /// No key occurs twice.
    pub open spec fn wf(&self) -> bool {
        distinct_keys(self@)
    }

    /// An empty map.
    pub fn new() -> (r: Self)
        ensures
            r.wf(),
            r@ == Seq::<(AccountView, V::V)>::empty(),
    {
        let r = AccountMap { entries: Vec::new() };
        assert(r@ =~= Seq::<(AccountView, V::V)>::empty());
        r
    }

    /// The number of keys.
    pub fn len(&self) -> (r: usize)
        ensures
            r == self@.len(),
    {
        self.entries.len()
    }

    /// Whether the map holds no key.
    pub fn is_empty(&self) -> (r: bool)
        ensures
            r == (self@.len() == 0),
    {
        self.entries.len() == 0
    }

    /// Where `key` stands among the keys, if it is one of them.
    fn position(&self, key: &Account) -> (r: Option<usize>)
        ensures
            match r {
                Some(i) => i < self@.len() && self@[i as int].0 == key@,
                None => !has_key(self@, key@),
            },
    {
        let mut i: usize = 0;
        while i < self.entries.len()
            invariant
                i <= self.entries@.len(),
                self@.len() == self.entries@.len(),
                forall|j: int| 0 <= j < i ==> self@[j].0 != key@,
            decreases self.entries@.len() - i,
        {
            if self.entries[i].0 == *key {
                return Some(i);
            }
            i = i + 1;
        }
        None
    }

    /// Whether `key` is in the map.
    pub fn contains_key(&self, key: &Account) -> (r: bool)
        ensures
            r == has_key(self@, key@),
    {
        self.position(key).is_some()
    }

    /// The value under `key`, if there is one.
    pub fn get(&self, key: &Account) -> (r: Option<&V>)
        requires
            self.wf(),
        ensures
            match r {
                Some(v) => lookup(self@, key@) == Some(v@),
                None => lookup(self@, key@) is None,
            },
    {
        match self.position(key) {
            Some(i) => {
                proof {
                    lemma_key_index(self@, i as int);
                }
                Some(&self.entries[i].1)
            },
            None => None,
        }
    }

    /// Puts `value` under `key` and hands back what was there. A key that
    /// is already there keeps its place in the order; a new one goes to
    /// the end.
    pub fn insert(&mut self, key: Account, value: V) -> (r: Option<V>)
        requires
            old(self).wf(),
        ensures
            final(self).wf(),
            final(self)@ == put(old(self)@, key@, value@),
            match r {
                Some(v) => lookup(old(self)@, key@) == Some(v@),
                None => lookup(old(self)@, key@) is None,
            },
    {
        proof {
            lemma_put(self@, key@, value@);
        }
        match self.position(&key) {
            Some(i) => {
                proof {
                    lemma_key_index(self@, i as int);
                }
                let e = self.entries.remove(i);
                self.entries.insert(i, (key, value));
                assert(self@ =~= put(old(self)@, key@, value@));
                Some(e.1)
            },
            None => {
                self.entries.push((key, value));
                assert(self@ =~= put(old(self)@, key@, value@));
                None
            },
        }
    }

    /// Takes `key` and its value out of the map and hands the value back.
    /// The other keys keep their order.
    pub fn remove(&mut self, key: &Account) -> (r: Option<V>)
        requires
            old(self).wf(),
        ensures
            final(self).wf(),
            final(self)@ == del(old(self)@, key@),
            match r {
                Some(v) => lookup(old(self)@, key@) == Some(v@),
                None => lookup(old(self)@, key@) is None,
            },
    {
        proof {
            lemma_del(self@, key@);
        }
        match self.position(key) {
            Some(i) => {
                proof {
                    lemma_key_index(self@, i as int);
                }
                let e = self.entries.remove(i);
                assert(self@ =~= del(old(self)@, key@));
                Some(e.1)
            },
            None => None,
        }
    }

    /// Empties the map.
    pub fn clear(&mut self)
        ensures
            final(self).wf(),
            final(self)@ == Seq::<(AccountView, V::V)>::empty(),
    {
        self.entries.clear();
        assert(self@ =~= Seq::<(AccountView, V::V)>::empty());
    }

    /// The key at place `i` of the insertion order.
    pub fn key_at(&self, i: usize) -> (r: Account)
        requires
            i < self@.len(),
        ensures
            r@ == self@[i as int].0,
    {
        self.entries[i].0
    }

    /// The value at place `i` of the insertion order.
    pub fn value_at(&self, i: usize) -> (r: &V)
        requires
            i < self@.len(),
        ensures
            r@ == self@[i as int].1,
    {
        &self.entries[i].1
    }
}

} // verus!
