//! A map that keeps its entries in the order in which their keys first
//! came, for keys that are compared by their view.

use vstd::prelude::*;

verus! {

/// A key that can be compared at run time: two keys are the same where
/// their views are equal.
pub trait Key: View + Sized {
    fn same_key(&self, other: &Self) -> (b: bool)
        ensures
            b == (self@ == other@),
    ;
}

impl Key for String {
    fn same_key(&self, other: &Self) -> (b: bool) {
        *self == *other
    }
}

impl Key for [u8; 32] {
    fn same_key(&self, other: &Self) -> (b: bool) {
        let mut i: usize = 0;
        while i < 32
            invariant
                i <= 32,
                forall|j: int| 0 <= j < i ==> self@[j] == other@[j],
            decreases 32 - i,
        {
            if self[i] != other[i] {
                return false;
            }
            i += 1;
        }
        assert(self@ =~= other@);
        true
    }
}

/// No two entries have the same key.
pub open spec fn distinct_keys<K: View, V>(s: Seq<(K, V)>) -> bool {
    forall|i: int, j: int| 0 <= i < j < s.len() ==> (#[trigger] s[i]).0@ != (#[trigger] s[j]).0@
}

/// The map that the entries make, a later entry replacing an earlier one
/// of the same key.
pub open spec fn entries_map<K: View, V: View>(s: Seq<(K, V)>) -> Map<K::V, V::V>
    decreases s.len(),
{
    if s.len() == 0 {
        Map::empty()
    } else {
        entries_map(s.drop_last()).insert(s.last().0@, s.last().1@)
    }
}

/// The keys of the entries, in order.
pub open spec fn entry_keys<K: View, V>(s: Seq<(K, V)>) -> Seq<K::V> {
    Seq::new(s.len(), |i: int| s[i].0@)
}

proof fn lemma_entries_domain<K: View, V: View>(s: Seq<(K, V)>, k: K::V)
    ensures
        entries_map(s).contains_key(k) <==> entry_keys(s).contains(k),
    decreases s.len(),
{
    if s.len() > 0 {
        let init = s.drop_last();
        lemma_entries_domain(init, k);
        if entry_keys(init).contains(k) {
            let i = choose|i: int| 0 <= i < init.len() && entry_keys(init)[i] == k;
            assert(entry_keys(s)[i] == k);
        }
        if s.last().0@ == k {
            assert(entry_keys(s)[s.len() - 1] == k);
        }
        if entry_keys(s).contains(k) {
            let i = choose|i: int| 0 <= i < s.len() && entry_keys(s)[i] == k;
            if i < s.len() - 1 {
                assert(entry_keys(init)[i] == k);
            }
        }
    }
}

proof fn lemma_entries_lookup<K: View, V: View>(s: Seq<(K, V)>, i: int)
    requires
        distinct_keys(s),
        0 <= i < s.len(),
    ensures
        entries_map(s).contains_key(s[i].0@),
        entries_map(s)[s[i].0@] == s[i].1@,
    decreases s.len(),
{
    if i < s.len() - 1 {
        let init = s.drop_last();
        assert forall|a: int, b: int| 0 <= a < b < init.len() implies (#[trigger] init[a]).0@ != (
        #[trigger] init[b]).0@ by {
            assert(init[a] == s[a] && init[b] == s[b]);
        }
        lemma_entries_lookup(init, i);
        assert(s[i].0@ != s[s.len() - 1].0@);
    }
}

proof fn lemma_entries_len<K: View, V: View>(s: Seq<(K, V)>)
    requires
        distinct_keys(s),
    ensures
        entries_map(s).dom().finite(),
        entries_map(s).dom().len() == s.len(),
    decreases s.len(),
{
    if s.len() > 0 {
        let init = s.drop_last();
        assert forall|a: int, b: int| 0 <= a < b < init.len() implies (#[trigger] init[a]).0@ != (
        #[trigger] init[b]).0@ by {
            assert(init[a] == s[a] && init[b] == s[b]);
        }
        lemma_entries_len(init);
        lemma_entries_domain(init, s.last().0@);
        if entry_keys(init).contains(s.last().0@) {
            let i = choose|i: int| 0 <= i < init.len() && entry_keys(init)[i] == s.last().0@;
            assert(s[i].0@ != s[s.len() - 1].0@);
        }
        assert(entries_map(s).dom() =~= entries_map(init).dom().insert(s.last().0@));
    } else {
        assert(entries_map(s).dom() =~= Set::empty());
    }
}

proof fn lemma_entries_replace<K: View, V: View>(s: Seq<(K, V)>, i: int, e: (K, V))
    requires
        distinct_keys(s),
        0 <= i < s.len(),
        s[i].0@ == e.0@,
    ensures
        distinct_keys(s.update(i, e)),
        entries_map(s.update(i, e)) == entries_map(s).insert(e.0@, e.1@),
        entry_keys(s.update(i, e)) == entry_keys(s),
    decreases s.len(),
{
    let t = s.update(i, e);
    assert forall|a: int, b: int| 0 <= a < b < t.len() implies (#[trigger] t[a]).0@ != (
    #[trigger] t[b]).0@ by {
        assert(t[a].0@ == s[a].0@ && t[b].0@ == s[b].0@);
    }
    assert(entry_keys(t) =~= entry_keys(s));
    let init = s.drop_last();
    if i == s.len() - 1 {
        assert(t.drop_last() =~= init);
        assert(entries_map(t) =~= entries_map(s).insert(e.0@, e.1@));
    } else {
        assert forall|a: int, b: int| 0 <= a < b < init.len() implies (#[trigger] init[a]).0@ != (
        #[trigger] init[b]).0@ by {
            assert(init[a] == s[a] && init[b] == s[b]);
        }
        lemma_entries_replace(init, i, e);
        assert(t.drop_last() =~= init.update(i, e));
        assert(t.last() == s.last());
        assert(s[i].0@ != s[s.len() - 1].0@);
        assert(entries_map(t) =~= entries_map(s).insert(e.0@, e.1@));
    }
}

/// A map from keys to values that remembers the order in which its keys
/// first came. No key occurs twice.
#[derive(Debug)]
pub struct AssocMap<K: Key, V: View> {
    entries: Vec<(K, V)>,
}

impl<K: Key, V: View> View for AssocMap<K, V> {
    type V = Map<K::V, V::V>;

    closed spec fn view(&self) -> Map<K::V, V::V> {
        entries_map(self.entries@)
    }
}

impl<K: Key, V: View> AssocMap<K, V> {
    #[verifier::type_invariant]
    spec fn unique(self) -> bool {
        distinct_keys(self.entries@)
    }

    /// The keys in the order in which they first came.
    pub closed spec fn keys(self) -> Seq<K::V> {
        entry_keys(self.entries@)
    }

    /// The map without entries.
    pub fn new() -> (m: Self)
        ensures
            m@ == Map::<K::V, V::V>::empty(),
            m.keys() == Seq::<K::V>::empty(),
    {
        let m = AssocMap { entries: Vec::new() };
        assert(m.keys() =~= Seq::<K::V>::empty());
        m
    }

    /// Maps `key` to `value`. A key that is new comes last in the order; one
    /// that was there keeps its place.
    pub fn insert(&mut self, key: K, value: V)
        ensures
            final(self)@ == old(self)@.insert(key@, value@),
            final(self).keys() == if old(self)@.contains_key(key@) {
                old(self).keys()
            } else {
                old(self).keys().push(key@)
            },
    {
        proof {
            use_type_invariant(&*self);
        }
        let ghost before = self.entries@;
        let n = self.entries.len();
        let mut i: usize = 0;
        while i < n && !self.entries[i].0.same_key(&key)
            invariant
                i <= n,
                n == self.entries@.len(),
                self.entries@ == before,
                forall|j: int| 0 <= j < i ==> (#[trigger] before[j]).0@ != key@,
            decreases n - i,
        {
            i += 1;
        }
        let mut entries: Vec<(K, V)> = Vec::new();
        std::mem::swap(&mut entries, &mut self.entries);
        if i < n {
            proof {
                lemma_entries_replace(before, i as int, (key, value));
                lemma_entries_lookup(before, i as int);
            }
            entries.set(i, (key, value));
        } else {
            proof {
                lemma_entries_domain(before, key@);
                if entry_keys(before).contains(key@) {
                    let j = choose|j: int| 0 <= j < before.len() && entry_keys(before)[j] == key@;
                    assert(before[j].0@ != key@);
                }
                let after = before.push((key, value));
                assert(after.drop_last() =~= before);
                assert(entry_keys(after) =~= entry_keys(before).push(key@));
                assert forall|a: int, b: int| 0 <= a < b < after.len() implies (
                #[trigger] after[a]).0@ != (#[trigger] after[b]).0@ by {
                    if b < before.len() {
                        assert(after[a] == before[a] && after[b] == before[b]);
                    } else {
                        assert(after[a] == before[a]);
                    }
                }
            }
            entries.push((key, value));
        }
        self.entries = entries;
    }

    /// The value that `key` is mapped to.
    pub fn get(&self, key: &K) -> (value: Option<&V>)
        ensures
            match value {
                Some(v) => self@.contains_key(key@) && self@[key@] == v@,
                None => !self@.contains_key(key@),
            },
    {
        proof {
            use_type_invariant(self);
        }
        let n = self.entries.len();
        let mut i: usize = 0;
        while i < n
            invariant
                i <= n,
                n == self.entries@.len(),
                distinct_keys(self.entries@),
                forall|j: int| 0 <= j < i ==> (#[trigger] self.entries@[j]).0@ != key@,
            decreases n - i,
        {
            if self.entries[i].0.same_key(key) {
                proof {
                    lemma_entries_lookup(self.entries@, i as int);
                }
                return Some(&self.entries[i].1);
            }
            i += 1;
        }
        proof {
            lemma_entries_domain(self.entries@, key@);
            if entry_keys(self.entries@).contains(key@) {
                let j = choose|j: int|
                    0 <= j < self.entries@.len() && entry_keys(self.entries@)[j] == key@;
                assert(self.entries@[j].0@ != key@);
            }
        }
        None
    }

    /// Whether `key` is mapped to a value.
    pub fn contains_key(&self, key: &K) -> (b: bool)
        ensures
            b == self@.contains_key(key@),
    {
        self.get(key).is_some()
    }

    /// The number of keys.
    pub fn len(&self) -> (n: usize)
        ensures
            n == self.keys().len(),
            self@.dom().finite(),
            n == self@.dom().len(),
            forall|k: K::V| self@.contains_key(k) <==> self.keys().contains(k),
    {
        proof {
            use_type_invariant(self);
            lemma_entries_len(self.entries@);
            assert forall|k: K::V| self@.contains_key(k) <==> self.keys().contains(k) by {
                lemma_entries_domain(self.entries@, k);
            }
        }
        self.entries.len()
    }

    /// Whether the map has no entry.
    pub fn is_empty(&self) -> (b: bool)
        ensures
            b == (self@ == Map::<K::V, V::V>::empty()),
            b == (self.keys().len() == 0),
    {
        proof {
            use_type_invariant(self);
            lemma_entries_len(self.entries@);
            if self.entries@.len() == 0 {
                assert(self@ =~= Map::<K::V, V::V>::empty());
            }
        }
        self.entries.len() == 0
    }

    /// The key at place `i` of the order, and its value.
    pub fn entry(&self, i: usize) -> (e: (&K, &V))
        requires
            i < self.keys().len(),
        ensures
            e.0@ == self.keys()[i as int],
            self@.contains_key(e.0@),
            self@[e.0@] == e.1@,
    {
        proof {
            use_type_invariant(self);
            lemma_entries_lookup(self.entries@, i as int);
        }
        (&self.entries[i].0, &self.entries[i].1)
    }
}

} // verus!
