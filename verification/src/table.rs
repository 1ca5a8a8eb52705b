//! Keyed storage tables.
//!
//! A `Table` holds the entries of one storage map of the pallet as a list of
//! `(key, value)` pairs in which no key occurs twice.  Its view is the finite
//! map from key views to value views; the order of the list is the order in
//! which the pallet walks the map.
use vstd::prelude::*;

verus! {

/// Keys that can be compared by their views.
pub trait TableKey: View + Sized {
    fn same_key(&self, other: &Self) -> (r: bool)
        ensures
            r == (self@ == other@),
    ;
}

impl TableKey for u64 {
    fn same_key(&self, other: &Self) -> (r: bool) {
        *self == *other
    }
}

impl TableKey for u32 {
    fn same_key(&self, other: &Self) -> (r: bool) {
        *self == *other
    }
}

impl TableKey for Vec<u8> {
    fn same_key(&self, other: &Self) -> (r: bool) {
        crate::bytes::bytes_eq(self, other)
    }
}

impl TableKey for (u64, Vec<u8>) {
    fn same_key(&self, other: &Self) -> (r: bool) {
        self.0 == other.0 && crate::bytes::bytes_eq(&self.1, &other.1)
    }
}

/// No key occurs twice in `s`.
pub open spec fn unique_keys<A, B>(s: Seq<(A, B)>) -> bool {
    forall|i: int, j: int|
        0 <= i < s.len() && 0 <= j < s.len() && i != j ==> #[trigger] s[i].0 != #[trigger] s[j].0
}

/// Some entry of `s` has the key `k`.
pub open spec fn has_key<A, B>(s: Seq<(A, B)>, k: A) -> bool {
    exists|i: int| 0 <= i < s.len() && #[trigger] s[i].0 == k
}

/// The map that a list of entries stands for.
pub open spec fn seq_to_map<A, B>(s: Seq<(A, B)>) -> Map<A, B> {
    Map::new(
        |k: A| has_key(s, k),
        |k: A| s[choose|i: int| 0 <= i < s.len() && #[trigger] s[i].0 == k].1,
    )
}

pub proof fn lemma_seq_to_map_index<A, B>(s: Seq<(A, B)>, i: int)
    requires
        unique_keys(s),
        0 <= i < s.len(),
    ensures
        seq_to_map(s).contains_key(s[i].0),
        seq_to_map(s)[s[i].0] == s[i].1,
{
    let k = s[i].0;
    assert(has_key(s, k));
    let j = choose|j: int| 0 <= j < s.len() && #[trigger] s[j].0 == k;
    assert(s[j].0 == k);
    if j != i {
        assert(s[i].0 != s[j].0);
    }
}

pub proof fn lemma_seq_to_map_all<A, B>(s: Seq<(A, B)>)
    requires
        unique_keys(s),
    ensures
        forall|i: int|
            0 <= i < s.len() ==> #[trigger] seq_to_map(s).contains_key(s[i].0) && seq_to_map(s)[s[i].0]
                == s[i].1,
        forall|k: A| #[trigger] seq_to_map(s).contains_key(k) <==> has_key(s, k),
{
    assert forall|i: int| 0 <= i < s.len() implies #[trigger] seq_to_map(s).contains_key(s[i].0)
        && seq_to_map(s)[s[i].0] == s[i].1 by {
        lemma_seq_to_map_index(s, i);
    }
}

pub proof fn lemma_remove_entry<A, B>(s: Seq<(A, B)>, i: int)
    requires
        unique_keys(s),
        0 <= i < s.len(),
    ensures
        unique_keys(s.remove(i)),
        seq_to_map(s.remove(i)) == seq_to_map(s).remove(s[i].0),
{
    let t = s.remove(i);
    assert forall|a: int, b: int|
        0 <= a < t.len() && 0 <= b < t.len() && a != b implies #[trigger] t[a].0
        != #[trigger] t[b].0 by {
        let a2 = if a < i { a } else { a + 1 };
        let b2 = if b < i { b } else { b + 1 };
        assert(t[a] == s[a2]);
        assert(t[b] == s[b2]);
        assert(s[a2].0 != s[b2].0);
    }
    lemma_seq_to_map_all(s);
    lemma_seq_to_map_all(t);
    let m = seq_to_map(s).remove(s[i].0);
    assert forall|k: A| #[trigger] seq_to_map(t).contains_key(k) <==> m.contains_key(k) by {
        if seq_to_map(t).contains_key(k) {
            let a = choose|a: int| 0 <= a < t.len() && #[trigger] t[a].0 == k;
            let a2 = if a < i { a } else { a + 1 };
            assert(t[a] == s[a2]);
            assert(s[a2].0 != s[i].0);
            assert(seq_to_map(s).contains_key(s[a2].0));
        }
        if m.contains_key(k) {
            let a = choose|a: int| 0 <= a < s.len() && #[trigger] s[a].0 == k;
            assert(a != i);
            let a2 = if a < i { a } else { a - 1 };
            assert(t[a2] == s[a]);
            assert(seq_to_map(t).contains_key(t[a2].0));
        }
    }
    assert forall|k: A| #[trigger] seq_to_map(t).contains_key(k) implies seq_to_map(t)[k] == m[k] by {
        let a = choose|a: int| 0 <= a < t.len() && #[trigger] t[a].0 == k;
        let a2 = if a < i { a } else { a + 1 };
        assert(t[a] == s[a2]);
        assert(seq_to_map(t)[t[a].0] == t[a].1);
        assert(seq_to_map(s)[s[a2].0] == s[a2].1);
    }
    assert(seq_to_map(t) =~= m);
}

pub proof fn lemma_insert_entry<A, B>(s: Seq<(A, B)>, i: int, e: (A, B))
    requires
        unique_keys(s),
        0 <= i <= s.len(),
        !has_key(s, e.0),
    ensures
        unique_keys(s.insert(i, e)),
        seq_to_map(s.insert(i, e)) == seq_to_map(s).insert(e.0, e.1),
{
    let t = s.insert(i, e);
    assert forall|a: int, b: int|
        0 <= a < t.len() && 0 <= b < t.len() && a != b implies #[trigger] t[a].0
        != #[trigger] t[b].0 by {
        if a != i && b != i {
            let a2 = if a < i { a } else { a - 1 };
            let b2 = if b < i { b } else { b - 1 };
            assert(t[a] == s[a2]);
            assert(t[b] == s[b2]);
        } else if a == i {
            let b2 = if b < i { b } else { b - 1 };
            assert(t[b] == s[b2]);
            assert(s[b2].0 != e.0);
        } else {
            let a2 = if a < i { a } else { a - 1 };
            assert(t[a] == s[a2]);
            assert(s[a2].0 != e.0);
        }
    }
    lemma_seq_to_map_all(s);
    lemma_seq_to_map_all(t);
    let m = seq_to_map(s).insert(e.0, e.1);
    assert(t[i] == e);
    assert forall|k: A| #[trigger] seq_to_map(t).contains_key(k) <==> m.contains_key(k) by {
        if seq_to_map(t).contains_key(k) && k != e.0 {
            let a = choose|a: int| 0 <= a < t.len() && #[trigger] t[a].0 == k;
            assert(a != i);
            let a2 = if a < i { a } else { a - 1 };
            assert(t[a] == s[a2]);
            assert(seq_to_map(s).contains_key(s[a2].0));
        }
        if m.contains_key(k) && k != e.0 {
            let a = choose|a: int| 0 <= a < s.len() && #[trigger] s[a].0 == k;
            let a2 = if a < i { a } else { a + 1 };
            assert(t[a2] == s[a]);
            assert(seq_to_map(t).contains_key(t[a2].0));
        }
        if k == e.0 {
            assert(seq_to_map(t).contains_key(t[i].0));
        }
    }
    assert forall|k: A| #[trigger] seq_to_map(t).contains_key(k) implies seq_to_map(t)[k] == m[k] by {
        let a = choose|a: int| 0 <= a < t.len() && #[trigger] t[a].0 == k;
        assert(seq_to_map(t)[t[a].0] == t[a].1);
        if a != i {
            let a2 = if a < i { a } else { a - 1 };
            assert(t[a] == s[a2]);
            assert(seq_to_map(s)[s[a2].0] == s[a2].1);
        }
    }
    assert(seq_to_map(t) =~= m);
}

/// One storage map of the pallet: its entries in the order in which the
/// pallet walks them, no key twice.
pub struct Table<K, V> {
    pub entries: Vec<(K, V)>,
}

impl<K: TableKey, V: View> View for Table<K, V> {
    type V = Map<K::V, V::V>;

    open spec fn view(&self) -> Map<K::V, V::V> {
        seq_to_map(self.seq())
    }
}

impl<K: TableKey, V: View> Table<K, V> {
    /// The entries, by their views, in walking order.
    pub open spec fn seq(&self) -> Seq<(K::V, V::V)> {
        self.entries@.map_values(|e: (K, V)| (e.0@, e.1@))
    }

    pub open spec fn wf(&self) -> bool {
        unique_keys(self.seq())
    }

    pub fn new() -> (t: Self)
        ensures
            t.wf(),
            t.seq() == Seq::<(K::V, V::V)>::empty(),
            t@ == Map::<K::V, V::V>::empty(),
    {
        let t = Table { entries: Vec::new() };
        assert(t.seq() =~= Seq::<(K::V, V::V)>::empty());
        assert(t@ =~= Map::<K::V, V::V>::empty());
        t
    }

    pub fn len(&self) -> (n: usize)
        requires
            self.wf(),
        ensures
            n == self.seq().len(),
            n == self@.len(),
    {
        proof {
            self.lemma_len();
        }
        self.entries.len()
    }

    pub proof fn lemma_len(&self)
        requires
            self.wf(),
        ensures
            self@.dom().finite(),
            self@.len() == self.seq().len(),
        decreases self.seq().len(),
    {
        lemma_seq_len_map(self.seq());
    }

    /// The position of the entry with key `k`.
    pub fn find(&self, k: &K) -> (r: Option<usize>)
        requires
            self.wf(),
        ensures
            match r {
                Some(i) => i < self.seq().len() && self.seq()[i as int].0 == k@ && self@.contains_key(
                    k@,
                ) && self@[k@] == self.seq()[i as int].1,
                None => !self@.contains_key(k@),
            },
    {
        let mut i: usize = 0;
        while i < self.entries.len()
            invariant
                self.wf(),
                i <= self.entries.len(),
                forall|j: int| 0 <= j < i ==> #[trigger] self.seq()[j].0 != k@,
            decreases self.entries.len() - i,
        {
            if self.entries[i].0.same_key(k) {
                proof {
                    lemma_seq_to_map_index(self.seq(), i as int);
                }
                return Some(i);
            }
            i = i + 1;
        }
        proof {
            lemma_seq_to_map_all(self.seq());
            if self@.contains_key(k@) {
                let j = choose|j: int| 0 <= j < self.seq().len() && #[trigger] self.seq()[j].0 == k@;
                assert(self.seq()[j].0 != k@);
            }
        }
        None
    }

    pub fn contains_key(&self, k: &K) -> (r: bool)
        requires
            self.wf(),
        ensures
            r == self@.contains_key(k@),
    {
        self.find(k).is_some()
    }

    pub fn get(&self, k: &K) -> (r: Option<&V>)
        requires
            self.wf(),
        ensures
            match r {
                Some(v) => self@.contains_key(k@) && self@[k@] == v@,
                None => !self@.contains_key(k@),
            },
    {
        match self.find(k) {
            Some(i) => Some(&self.entries[i].1),
            None => None,
        }
    }

    /// Takes the entry at position `i` out of the table.
    pub fn remove_at(&mut self, i: usize) -> (e: (K, V))
        requires
            old(self).wf(),
            i < old(self).seq().len(),
        ensures
            final(self).wf(),
            final(self).seq() == old(self).seq().remove(i as int),
            (e.0@, e.1@) == old(self).seq()[i as int],
            final(self)@ == old(self)@.remove(e.0@),
            old(self)@.contains_key(e.0@),
            old(self)@[e.0@] == e.1@,
    {
        let ghost s = self.seq();
        proof {
            lemma_remove_entry(s, i as int);
            lemma_seq_to_map_index(s, i as int);
        }
        let e = self.entries.remove(i);
        assert(self.seq() =~= s.remove(i as int));
        e
    }

    /// Puts a new entry at position `i`.
    pub fn insert_at(&mut self, i: usize, k: K, v: V)
        requires
            old(self).wf(),
            i <= old(self).seq().len(),
            !old(self)@.contains_key(k@),
        ensures
            final(self).wf(),
            final(self).seq() == old(self).seq().insert(i as int, (k@, v@)),
            final(self)@ == old(self)@.insert(k@, v@),
    {
        let ghost s = self.seq();
        let ghost kv = k@;
        let ghost vv = v@;
        proof {
            lemma_seq_to_map_all(s);
            lemma_insert_entry(s, i as int, (kv, vv));
        }
        self.entries.insert(i, (k, v));
        assert(self.seq() =~= s.insert(i as int, (kv, vv)));
    }

    /// Writes `v` under `k`: in place where `k` is present, else at the end.
    pub fn insert(&mut self, k: K, v: V)
        requires
            old(self).wf(),
        ensures
            final(self).wf(),
            final(self)@ == old(self)@.insert(k@, v@),
            match old(self).find_spec(k@) {
                Some(i) => final(self).seq() == old(self).seq().update(i, (k@, v@)),
                None => final(self).seq() == old(self).seq().push((k@, v@)),
            },
    {
        let ghost s = self.seq();
        match self.find(&k) {
            Some(i) => {
                proof {
                    self.lemma_find_spec(k@, i as int);
                }
                let _old = self.remove_at(i);
                self.insert_at(i, k, v);
                assert(self.seq() =~= s.update(i as int, (k@, v@)));
                assert(self@ =~= old(self)@.insert(k@, v@));
            },
            None => {
                proof {
                    self.lemma_find_spec_none(k@);
                }
                let n = self.entries.len();
                self.insert_at(n, k, v);
                assert(self.seq() =~= s.push((k@, v@)));
            },
        }
    }

    /// Deletes the entry under `k`, if any, and hands its value back.
    pub fn remove(&mut self, k: &K) -> (r: Option<V>)
        requires
            old(self).wf(),
        ensures
            final(self).wf(),
            final(self)@ == old(self)@.remove(k@),
            match r {
                Some(v) => old(self)@.contains_key(k@) && old(self)@[k@] == v@,
                None => !old(self)@.contains_key(k@) && final(self).seq() == old(self).seq(),
            },
            match old(self).find_spec(k@) {
                Some(i) => final(self).seq() == old(self).seq().remove(i),
                None => final(self).seq() == old(self).seq(),
            },
    {
        match self.find(k) {
            Some(i) => {
                proof {
                    self.lemma_find_spec(k@, i as int);
                }
                let e = self.remove_at(i);
                Some(e.1)
            },
            None => {
                proof {
                    self.lemma_find_spec_none(k@);
                    assert(old(self)@.remove(k@) =~= old(self)@);
                }
                None
            },
        }
    }

    /// The position of the entry with key `k`, if any.
    pub open spec fn find_spec(&self, k: K::V) -> Option<int> {
        if has_key(self.seq(), k) {
            Some(choose|i: int| 0 <= i < self.seq().len() && #[trigger] self.seq()[i].0 == k)
        } else {
            None
        }
    }

    pub proof fn lemma_find_spec(&self, k: K::V, i: int)
        requires
            self.wf(),
            0 <= i < self.seq().len(),
            self.seq()[i].0 == k,
        ensures
            self.find_spec(k) == Some(i),
    {
        let j = choose|j: int| 0 <= j < self.seq().len() && #[trigger] self.seq()[j].0 == k;
        assert(self.seq()[j].0 == k);
        if j != i {
            assert(self.seq()[i].0 != self.seq()[j].0);
        }
    }

    pub proof fn lemma_find_spec_none(&self, k: K::V)
        requires
            self.wf(),
            !self@.contains_key(k),
        ensures
            self.find_spec(k) == None::<int>,
    {
        lemma_seq_to_map_all(self.seq());
    }
}

pub proof fn lemma_seq_len_map<A, B>(s: Seq<(A, B)>)
    requires
        unique_keys(s),
    ensures
        seq_to_map(s).dom().finite(),
        seq_to_map(s).len() == s.len(),
    decreases s.len(),
{
    if s.len() == 0 {
        assert(seq_to_map(s).dom() =~= Set::<A>::empty());
    } else {
        let t = s.drop_last();
        assert(t =~= s.remove(s.len() - 1));
        lemma_remove_entry(s, s.len() - 1);
        lemma_seq_len_map(t);
        lemma_seq_to_map_index(s, s.len() - 1);
        let m = seq_to_map(s);
        let k = s[s.len() - 1].0;
        assert(m.dom() =~= seq_to_map(t).dom().insert(k));
    }
}

} // verus!
