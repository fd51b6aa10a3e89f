//! A map from strings to values that remembers the order of its keys, as
//! the contract's persistent unordered maps do: a new key goes to the end,
//! and removing a key moves the last entry into its place.

use vstd::prelude::*;

verus! {

/// No key occurs twice.
pub open spec fn keys_distinct<M>(s: Seq<(Seq<char>, M)>) -> bool {
    forall|i: int, j: int| 0 <= i < s.len() && 0 <= j < s.len() && i != j ==> #[trigger] s[i].0 != #[trigger] s[j].0
}

/// No integer key occurs twice.
pub open spec fn int_keys_distinct<M>(s: Seq<(i128, M)>) -> bool {
    forall|i: int, j: int| 0 <= i < s.len() && 0 <= j < s.len() && i != j ==> #[trigger] s[i].0 != #[trigger] s[j].0
}

pub open spec fn has_key<M>(s: Seq<(Seq<char>, M)>, k: Seq<char>) -> bool {
    exists|i: int| 0 <= i < s.len() && #[trigger] s[i].0 == k
}

/// The position of `k` (meaningful when `k` is present).
pub open spec fn key_index<M>(s: Seq<(Seq<char>, M)>, k: Seq<char>) -> int {
    choose|i: int| 0 <= i < s.len() && #[trigger] s[i].0 == k
}

/// The value stored under `k`.
pub open spec fn lookup<M>(s: Seq<(Seq<char>, M)>, k: Seq<char>) -> Option<M> {
    if has_key(s, k) {
        Some(s[key_index(s, k)].1)
    } else {
        None
    }
}

/// Stores `v` under `k`: in place when `k` is present, else at the end.
pub open spec fn upsert<M>(s: Seq<(Seq<char>, M)>, k: Seq<char>, v: M) -> Seq<(Seq<char>, M)> {
    if has_key(s, k) {
        s.update(key_index(s, k), (k, v))
    } else {
        s.push((k, v))
    }
}

/// Removes `k`, moving the last entry into its place.
pub open spec fn swap_delete<M>(s: Seq<(Seq<char>, M)>, k: Seq<char>) -> Seq<(Seq<char>, M)> {
    if has_key(s, k) {
        s.update(key_index(s, k), s.last()).drop_last()
    } else {
        s
    }
}

/// With distinct keys, the entry holding `k` is the one at `key_index`.
pub proof fn lemma_key_index_unique<M>(s: Seq<(Seq<char>, M)>, k: Seq<char>, i: int)
    requires
        keys_distinct(s),
        0 <= i < s.len(),
        s[i].0 == k,
    ensures
        has_key(s, k),
        key_index(s, k) == i,
        lookup(s, k) == Some(s[i].1),
{
    assert(has_key(s, k));
    let j = key_index(s, k);
    assert(s[j].0 == k);
}

pub proof fn lemma_upsert_distinct<M>(s: Seq<(Seq<char>, M)>, k: Seq<char>, v: M)
    requires
        keys_distinct(s),
    ensures
        keys_distinct(upsert(s, k, v)),
        has_key(upsert(s, k, v), k),
        lookup(upsert(s, k, v), k) == Some(v),
        forall|k2: Seq<char>| k2 != k ==> #[trigger] lookup(upsert(s, k, v), k2) == lookup(s, k2),
{
    let t = upsert(s, k, v);
    if has_key(s, k) {
        let i = key_index(s, k);
        assert(s[i].0 == k);
        assert forall|a: int, b: int| 0 <= a < t.len() && 0 <= b < t.len() && a != b implies #[trigger] t[a].0 != #[trigger] t[b].0 by {
            assert(t[a].0 == s[a].0);
            assert(t[b].0 == s[b].0);
        }
        lemma_key_index_unique(t, k, i);
        assert forall|k2: Seq<char>| k2 != k implies #[trigger] lookup(t, k2) == lookup(s, k2) by {
            if has_key(s, k2) {
                let j = key_index(s, k2);
                lemma_key_index_unique(t, k2, j);
            }
            if has_key(t, k2) {
                let j = key_index(t, k2);
                assert(t[j].0 == s[j].0);
                lemma_key_index_unique(s, k2, j);
            }
        }
    } else {
        assert forall|a: int, b: int| 0 <= a < t.len() && 0 <= b < t.len() && a != b implies #[trigger] t[a].0 != #[trigger] t[b].0 by {
            if a == s.len() {
                assert(s[b].0 != k);
            } else if b == s.len() {
                assert(s[a].0 != k);
            }
        }
        lemma_key_index_unique(t, k, s.len() as int);
        assert forall|k2: Seq<char>| k2 != k implies #[trigger] lookup(t, k2) == lookup(s, k2) by {
            if has_key(s, k2) {
                let j = key_index(s, k2);
                lemma_key_index_unique(t, k2, j);
            }
            if has_key(t, k2) {
                let j = key_index(t, k2);
                assert(j < s.len());
                lemma_key_index_unique(s, k2, j);
            }
        }
    }
}

pub proof fn lemma_swap_delete_distinct<M>(s: Seq<(Seq<char>, M)>, k: Seq<char>)
    requires
        keys_distinct(s),
    ensures
        keys_distinct(swap_delete(s, k)),
        !has_key(swap_delete(s, k), k),
        forall|k2: Seq<char>| k2 != k ==> #[trigger] lookup(swap_delete(s, k), k2) == lookup(s, k2),
{
    let t = swap_delete(s, k);
    if has_key(s, k) {
        let i = key_index(s, k);
        let n = s.len() - 1;
        assert(s[i].0 == k);
        assert forall|a: int| 0 <= a < t.len() implies #[trigger] t[a] == (if a == i { s[n] } else { s[a] }) by {}
        assert forall|a: int, b: int| 0 <= a < t.len() && 0 <= b < t.len() && a != b implies #[trigger] t[a].0 != #[trigger] t[b].0 by {
            let sa = if a == i { n } else { a };
            let sb = if b == i { n } else { b };
            assert(t[a] == s[sa]);
            assert(t[b] == s[sb]);
        }
        if has_key(t, k) {
            let j = key_index(t, k);
            let sj = if j == i { n } else { j };
            assert(t[j] == s[sj]);
        }
        assert forall|k2: Seq<char>| k2 != k implies #[trigger] lookup(t, k2) == lookup(s, k2) by {
            if has_key(s, k2) {
                let j = key_index(s, k2);
                let tj = if j == n { i } else { j };
                assert(j != i);
                assert(t[tj] == s[j]);
                lemma_key_index_unique(t, k2, tj);
            }
            if has_key(t, k2) {
                let j = key_index(t, k2);
                let sj = if j == i { n } else { j };
                assert(t[j] == s[sj]);
                lemma_key_index_unique(s, k2, sj);
            }
        }
    }
}

/// Entries in the order of their keys' arrival, with distinct keys.
#[derive(Clone, Debug)]
pub struct StrMap<V> {
    pub entries: Vec<(String, V)>,
}

impl<V: DeepView> DeepView for StrMap<V> {
    type V = Seq<(Seq<char>, V::V)>;

    open spec fn deep_view(&self) -> Seq<(Seq<char>, V::V)> {
        self.entries.deep_view()
    }
}

impl<V: DeepView> StrMap<V> {
    pub open spec fn wf(&self) -> bool {
        keys_distinct(self.deep_view())
    }

    pub fn new() -> (m: Self)
        ensures
            m.deep_view() == Seq::<(Seq<char>, V::V)>::empty(),
            m.wf(),
    {
        let m = StrMap { entries: Vec::new() };
        assert(m.deep_view() =~= Seq::<(Seq<char>, V::V)>::empty());
        m
    }

    pub fn len(&self) -> (n: usize)
        ensures
            n == self.deep_view().len(),
    {
        self.entries.len()
    }

    /// The position of `k`.
    pub fn find(&self, k: &String) -> (r: Option<usize>)
        requires
            self.wf(),
        ensures
            r is None <==> !has_key(self.deep_view(), k@),
            r matches Some(i) ==> i < self.deep_view().len() && i == key_index(self.deep_view(), k@)
                && self.deep_view()[i as int].0 == k@,
    {
        let mut i: usize = 0;
        while i < self.entries.len()
            invariant
                self.wf(),
                i <= self.entries.len(),
                forall|j: int| 0 <= j < i ==> #[trigger] self.deep_view()[j].0 != k@,
            decreases self.entries.len() - i,
        {
            if self.entries[i].0 == *k {
                proof { lemma_key_index_unique(self.deep_view(), k@, i as int); }
                return Some(i);
            }
            i = i + 1;
        }
        None
    }

    /// The value stored under `k`.
    pub fn get(&self, k: &String) -> (r: Option<&V>)
        requires
            self.wf(),
        ensures
            r is None <==> !has_key(self.deep_view(), k@),
            r matches Some(v) ==> lookup(self.deep_view(), k@) == Some(v.deep_view()),
    {
        match self.find(k) {
            Some(i) => {
                proof { lemma_key_index_unique(self.deep_view(), k@, i as int); }
                Some(&self.entries[i].1)
            },
            None => None,
        }
    }

    /// Stores `v` under `k`.
    pub fn insert(&mut self, k: String, v: V)
        requires
            old(self).wf(),
        ensures
            final(self).wf(),
            final(self).deep_view() == upsert(old(self).deep_view(), k@, v.deep_view()),
    {
        proof { lemma_upsert_distinct(self.deep_view(), k@, v.deep_view()); }
        match self.find(&k) {
            Some(i) => {
                let ghost kv = k@;
                let ghost vv = v.deep_view();
                self.entries.set(i, (k, v));
                assert(self.deep_view() =~= upsert(old(self).deep_view(), kv, vv));
            },
            None => {
                let ghost kv = k@;
                let ghost vv = v.deep_view();
                self.entries.push((k, v));
                assert(self.deep_view() =~= upsert(old(self).deep_view(), kv, vv));
            },
        }
    }

    /// Removes `k`, moving the last entry into its place.
    pub fn remove(&mut self, k: &String)
        requires
            old(self).wf(),
        ensures
            final(self).wf(),
            final(self).deep_view() == swap_delete(old(self).deep_view(), k@),
    {
        proof { lemma_swap_delete_distinct(self.deep_view(), k@); }
        match self.find(k) {
            Some(i) => {
                let _ = self.entries.swap_remove(i);
                assert(self.deep_view() =~= swap_delete(old(self).deep_view(), k@));
            },
            None => {},
        }
    }
}

} // verus!
