//! Keyed storage: an association list with unique keys, kept in insertion order.
//!
//! Every storage map of the protocol modules is a `Table`. `spec_get` is its meaning as a
//! map, `entries` its contents in iteration order.
use vstd::prelude::*;

verus! {

/// Keys that can be compared for equality in executable code.
pub trait TableKey: Copy + Sized {
    fn key_eq(&self, other: &Self) -> (r: bool)
        ensures
            r == (*self == *other),
    ;
}

impl TableKey for u64 {
    fn key_eq(&self, other: &Self) -> (r: bool) {
        *self == *other
    }
}

impl TableKey for u32 {
    fn key_eq(&self, other: &Self) -> (r: bool) {
        *self == *other
    }
}

/// The value stored under `k`, searching from the most recent entry.
pub open spec fn seq_find<K, V>(s: Seq<(K, V)>, k: K) -> Option<V>
    decreases s.len(),
{
    if s.len() == 0 {
        None
    } else if s.last().0 == k {
        Some(s.last().1)
    } else {
        seq_find(s.drop_last(), k)
    }
}

/// No key occurs twice.
pub open spec fn keys_unique<K, V>(s: Seq<(K, V)>) -> bool {
    forall|i: int, j: int| 0 <= i < s.len() && 0 <= j < s.len() && i != j ==> s[i].0 != s[j].0
}

/// A key occurs in the sequence.
pub open spec fn seq_has_key<K, V>(s: Seq<(K, V)>, k: K) -> bool {
    exists|i: int| 0 <= i < s.len() && s[i].0 == k
}

pub proof fn lemma_seq_find<K, V>(s: Seq<(K, V)>, k: K)
    requires
        keys_unique(s),
    ensures
        forall|i: int| 0 <= i < s.len() && s[i].0 == k ==> seq_find(s, k) == Some(s[i].1),
        !seq_has_key(s, k) ==> seq_find(s, k) is None,
        seq_has_key(s, k) ==> seq_find(s, k) is Some,
    decreases s.len(),
{
    if s.len() > 0 {
        let t = s.drop_last();
        assert(keys_unique(t));
        lemma_seq_find(t, k);
        if s.last().0 != k {
            assert forall|i: int| 0 <= i < t.len() && t[i].0 == k implies s[i].0 == k by {}
            if seq_has_key(s, k) {
                let i = choose|i: int| 0 <= i < s.len() && s[i].0 == k;
                assert(t[i].0 == k);
            }
        }
    }
}

/// An association list with unique keys.
pub struct Table<K, V> {
    pub(crate) entries: Vec<(K, V)>,
}

impl<K: TableKey, V> Table<K, V> {
    /// The entries in iteration order.
    pub closed spec fn entries(&self) -> Seq<(K, V)> {
        self.entries@
    }

    /// Well-formedness: no key occurs twice.
    pub closed spec fn wf(&self) -> bool {
        keys_unique(self.entries@)
    }

    /// The keys in iteration order.
    pub open spec fn keys(&self) -> Seq<K> {
        self.entries().map_values(|e: (K, V)| e.0)
    }

    /// The value stored under `k`, if any.
    pub open spec fn spec_get(&self, k: K) -> Option<V> {
        seq_find(self.entries(), k)
    }

    /// `k` has an entry.
    pub open spec fn spec_contains(&self, k: K) -> bool {
        self.spec_get(k) is Some
    }

    pub proof fn lemma_wf(&self)
        requires
            self.wf(),
        ensures
            keys_unique(self.entries()),
            forall|i: int|
                0 <= i < self.entries().len() ==> #[trigger] self.spec_get(self.entries()[i].0) == Some(
                    self.entries()[i].1,
                ),
            forall|k: K| self.spec_contains(k) <==> seq_has_key(self.entries(), k),
    {
        assert forall|i: int| 0 <= i < self.entries().len() implies #[trigger] self.spec_get(
            self.entries()[i].0,
        ) == Some(self.entries()[i].1) by {
            lemma_seq_find(self.entries@, self.entries@[i].0);
        }
        assert forall|k: K| self.spec_contains(k) <==> seq_has_key(self.entries(), k) by {
            lemma_seq_find(self.entries@, k);
        }
    }

    pub fn new() -> (r: Self)
        ensures
            r.wf(),
            r.entries() == Seq::<(K, V)>::empty(),
            forall|k: K| r.spec_get(k) is None,
    {
        Table { entries: Vec::new() }
    }

    pub fn len(&self) -> (r: usize)
        ensures
            r == self.entries().len(),
    {
        self.entries.len()
    }

    /// Index of the entry with key `k`.
    fn index_of(&self, k: &K) -> (r: Option<usize>)
        requires
            self.wf(),
        ensures
            r is Some ==> r->0 < self.entries().len() && self.entries()[r->0 as int].0 == *k,
            r is None ==> !seq_has_key(self.entries(), *k),
    {
        let mut i: usize = 0;
        while i < self.entries.len()
            invariant
                i <= self.entries@.len(),
                forall|j: int| 0 <= j < i ==> self.entries@[j].0 != *k,
            decreases self.entries@.len() - i,
        {
            if self.entries[i].0.key_eq(k) {
                return Some(i);
            }
            i = i + 1;
        }
        None
    }

    pub fn contains(&self, k: &K) -> (r: bool)
        requires
            self.wf(),
        ensures
            r == self.spec_contains(*k),
    {
        proof {
            lemma_seq_find(self.entries@, *k);
        }
        self.index_of(k).is_some()
    }

    pub fn get(&self, k: &K) -> (r: Option<&V>)
        requires
            self.wf(),
        ensures
            r is Some <==> self.spec_get(*k) is Some,
            r is Some ==> *r->0 == self.spec_get(*k)->0,
    {
        proof {
            lemma_seq_find(self.entries@, *k);
        }
        match self.index_of(k) {
            Some(i) => Some(&self.entries[i].1),
            None => None,
        }
    }

    /// Key of the entry at position `i`.
    pub fn key_at(&self, i: usize) -> (r: K)
        requires
            i < self.entries().len(),
        ensures
            r == self.entries()[i as int].0,
    {
        self.entries[i].0
    }

    /// Value of the entry at position `i`.
    pub fn value_at(&self, i: usize) -> (r: &V)
        requires
            i < self.entries().len(),
        ensures
            *r == self.entries()[i as int].1,
    {
        &self.entries[i].1
    }

    /// Stores `v` under `k`: in place where `k` has an entry, else as a new last entry.
    pub fn insert(&mut self, k: K, v: V)
        requires
            old(self).wf(),
        ensures
            final(self).wf(),
            forall|k2: K| #[trigger]
                final(self).spec_get(k2) == if k2 == k {
                    Some(v)
                } else {
                    old(self).spec_get(k2)
                },
            seq_has_key(old(self).entries(), k) ==> exists|i: int|
                0 <= i < old(self).entries().len() && old(self).entries()[i].0 == k
                    && final(self).entries() == old(self).entries().update(i, (k, v)),
            !seq_has_key(old(self).entries(), k) ==> final(self).entries() == old(
                self,
            ).entries().push((k, v)),
            seq_has_key(old(self).entries(), k) ==> final(self).keys() == old(self).keys(),
            !seq_has_key(old(self).entries(), k) ==> final(self).keys() == old(self).keys().push(k),
    {
        match self.index_of(&k) {
            Some(i) => {
                let ghost old_s = self.entries@;
                self.entries.set(i, (k, v));
                proof {
                    let s = self.entries@;
                    assert(keys_unique(s));
                    assert forall|k2: K| #[trigger] seq_find(s, k2) == if k2 == k {
                        Some(v)
                    } else {
                        seq_find(old_s, k2)
                    } by {
                        lemma_seq_find(s, k2);
                        lemma_seq_find(old_s, k2);
                        if k2 != k && seq_has_key(old_s, k2) {
                            let j = choose|j: int| 0 <= j < old_s.len() && old_s[j].0 == k2;
                            assert(s[j].0 == k2);
                        }
                        if k2 != k && seq_has_key(s, k2) {
                            let j = choose|j: int| 0 <= j < s.len() && s[j].0 == k2;
                            assert(old_s[j].0 == k2);
                        }
                        assert(s[i as int].0 == k);
                    }
                    assert(s.map_values(|e: (K, V)| e.0) =~= old_s.map_values(|e: (K, V)| e.0));
                }
            },
            None => {
                let ghost old_s = self.entries@;
                self.entries.push((k, v));
                proof {
                    let s = self.entries@;
                    assert(keys_unique(s));
                    assert forall|k2: K| #[trigger] seq_find(s, k2) == if k2 == k {
                        Some(v)
                    } else {
                        seq_find(old_s, k2)
                    } by {
                        assert(s.drop_last() =~= old_s);
                    }
                    assert(s.map_values(|e: (K, V)| e.0) =~= old_s.map_values(|e: (K, V)| e.0).push(k));
                }
            },
        }
    }

    /// Removes the entry of `k`, if any, keeping the order of the others.
    pub fn remove(&mut self, k: &K) -> (r: Option<V>)
        requires
            old(self).wf(),
        ensures
            final(self).wf(),
            r == old(self).spec_get(*k),
            forall|k2: K| #[trigger]
                final(self).spec_get(k2) == if k2 == *k {
                    None
                } else {
                    old(self).spec_get(k2)
                },
            seq_has_key(old(self).entries(), *k) ==> exists|i: int|
                0 <= i < old(self).entries().len() && old(self).entries()[i].0 == *k
                    && final(self).entries() == old(self).entries().remove(i),
            !seq_has_key(old(self).entries(), *k) ==> final(self).entries() == old(self).entries(),
    {
        proof {
            lemma_seq_find(self.entries@, *k);
        }
        match self.index_of(k) {
            Some(i) => {
                let ghost old_s = self.entries@;
                let (_, v) = self.entries.remove(i);
                proof {
                    let s = self.entries@;
                    assert(keys_unique(s)) by {
                        assert forall|a: int, b: int|
                            0 <= a < s.len() && 0 <= b < s.len() && a != b implies s[a].0 != s[b].0 by {
                            let a1 = if a < i { a } else { a + 1 };
                            let b1 = if b < i { b } else { b + 1 };
                            assert(s[a] == old_s[a1]);
                            assert(s[b] == old_s[b1]);
                        }
                    }
                    assert forall|k2: K| #[trigger] seq_find(s, k2) == if k2 == *k {
                        None
                    } else {
                        seq_find(old_s, k2)
                    } by {
                        lemma_seq_find(s, k2);
                        lemma_seq_find(old_s, k2);
                        if seq_has_key(s, k2) {
                            let j = choose|j: int| 0 <= j < s.len() && s[j].0 == k2;
                            let j1 = if j < i { j } else { j + 1 };
                            assert(s[j] == old_s[j1]);
                        }
                        if k2 != *k && seq_has_key(old_s, k2) {
                            let j = choose|j: int| 0 <= j < old_s.len() && old_s[j].0 == k2;
                            assert(j != i);
                            let j1 = if j < i { j } else { j - 1 };
                            assert(s[j1] == old_s[j]);
                        }
                    }
                }
                Some(v)
            },
            None => None,
        }
    }
}

impl<K: TableKey, V: Copy> Table<K, V> {
    /// A copy of the table.
    pub fn snapshot(&self) -> (r: Table<K, V>)
        ensures
            r.entries() == self.entries(),
            self.wf() ==> r.wf(),
    {
        let mut v: Vec<(K, V)> = Vec::new();
        let mut i: usize = 0;
        while i < self.entries.len()
            invariant
                i <= self.entries@.len(),
                v@ == self.entries@.subrange(0, i as int),
            decreases self.entries@.len() - i,
        {
            let e = self.entries[i];
            v.push(e);
            i = i + 1;
            assert(v@ =~= self.entries@.subrange(0, i as int));
        }
        assert(self.entries@.subrange(0, i as int) =~= self.entries@);
        Table { entries: v }
    }

    /// Removes the entries of all keys in `ks`.
    pub fn remove_keys(&mut self, ks: &Vec<K>)
        requires
            old(self).wf(),
        ensures
            final(self).wf(),
            forall|k2: K| #[trigger]
                final(self).spec_get(k2) == if ks@.contains(k2) {
                    None
                } else {
                    old(self).spec_get(k2)
                },
    {
        let mut i: usize = 0;
        while i < ks.len()
            invariant
                self.wf(),
                i <= ks@.len(),
                forall|k2: K| #[trigger]
                    self.spec_get(k2) == if exists|j: int| 0 <= j < i && ks@[j] == k2 {
                        None
                    } else {
                        old(self).spec_get(k2)
                    },
            decreases ks@.len() - i,
        {
            let k = ks[i];
            self.remove(&k);
            proof {
                assert forall|k2: K| #[trigger] self.spec_get(k2) == if exists|j: int|
                    0 <= j < i + 1 && ks@[j] == k2 {
                    None
                } else {
                    old(self).spec_get(k2)
                } by {
                    if k2 == k {
                        assert(ks@[i as int] == k2);
                    }
                }
            }
            i = i + 1;
        }
    }

    /// The value stored under `k`, if any.
    pub fn get_copy(&self, k: &K) -> (r: Option<V>)
        requires
            self.wf(),
        ensures
            r == self.spec_get(*k),
    {
        match self.get(k) {
            Some(v) => Some(*v),
            None => None,
        }
    }
}

} // verus!
