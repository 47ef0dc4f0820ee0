//! A map for keys that are told apart by their views, such as sites and
//! filter ids. It keeps its entries in a vector, in the order in which their
//! keys were first inserted.

use vstd::prelude::*;

verus! {

/// A key of a [`VecMap`]: two keys are the same key when their views are
/// equal.
pub trait MapKey: View + Sized {
    /// Whether `self` and `other` are the same key.
    fn same_key(&self, other: &Self) -> (b: bool)
        ensures
            b == (self@ == other@),
    ;

    /// Another value for the same key.
    fn copy_key(&self) -> (k: Self)
        ensures
            k@ == self@,
    ;
}

impl MapKey for u64 {
    fn same_key(&self, other: &u64) -> (b: bool) {
        *self == *other
    }

    fn copy_key(&self) -> (k: u64) {
        *self
    }
}

impl MapKey for String {
    fn same_key(&self, other: &String) -> (b: bool) {
        *self == *other
    }

    fn copy_key(&self) -> (k: String) {
        self.clone()
    }
}

/// The views of the items of `s`.
pub open spec fn views<T: View>(s: Seq<T>) -> Seq<T::V> {
    s.map_values(|t: T| t@)
}

/// The items of `s` in the order in which each occurs first.
pub open spec fn distinct<A>(s: Seq<A>) -> Seq<A>
    decreases s.len(),
{
    if s.len() == 0 {
        Seq::empty()
    } else {
        let before = distinct(s.drop_last());
        if before.contains(s.last()) {
            before
        } else {
            before.push(s.last())
        }
    }
}

/// `distinct(s)` holds the items of `s`, each once.
pub proof fn lemma_distinct_contains<A>(s: Seq<A>)
    ensures
        distinct(s).no_duplicates(),
        forall|a: A| #[trigger] distinct(s).contains(a) <==> s.contains(a),
    decreases s.len(),
{
    if s.len() > 0 {
        let before = distinct(s.drop_last());
        lemma_distinct_contains(s.drop_last());
        assert forall|a: A| #[trigger] distinct(s).contains(a) <==> s.contains(a) by {
            if s.contains(a) {
                let i = s.index_of(a);
                if i < s.len() - 1 {
                    assert(s.drop_last()[i] == a);
                    assert(before.contains(a));
                    let j = before.index_of(a);
                    assert(distinct(s)[j] == a);
                } else {
                    assert(a == s.last());
                    if !before.contains(a) {
                        assert(distinct(s)[before.len() as int] == a);
                    }
                }
            }
            if distinct(s).contains(a) {
                let j = distinct(s).index_of(a);
                if j < before.len() {
                    assert(before[j] == a);
                    assert(before.contains(a));
                    let i = s.drop_last().index_of(a);
                    assert(s[i] == a);
                } else {
                    assert(s[s.len() - 1] == a);
                }
            }
        }
    }
}

spec fn entry_keys<K: MapKey, V>(entries: Seq<(K, V)>) -> Seq<K::V> {
    Seq::new(entries.len(), |i: int| entries[i].0@)
}

spec fn entry_values<K: MapKey, V>(entries: Seq<(K, V)>) -> Seq<V> {
    Seq::new(entries.len(), |i: int| entries[i].1)
}

/// A finite map from keys to values, held as a vector of entries without
/// repeated keys.
#[derive(Debug)]
pub struct VecMap<K: MapKey, V> {
    entries: Vec<(K, V)>,
}

impl<K: MapKey, V> View for VecMap<K, V> {
    type V = Map<K::V, V>;

    /// The map from each key to its value.
    open spec fn view(&self) -> Map<K::V, V> {
        Map::new(
            |k: K::V| self.keys().contains(k),
            |k: K::V| self.values()[self.keys().index_of(k)],
        )
    }
}

impl<K: MapKey, V> VecMap<K, V> {
    /// The keys, in the order of the entries.
    pub closed spec fn keys(&self) -> Seq<K::V> {
        entry_keys(self.entries@)
    }

    /// The values, in the order of the entries.
    pub closed spec fn values(&self) -> Seq<V> {
        entry_values(self.entries@)
    }

    /// No key occurs twice, and each key has its value.
    #[verifier::type_invariant]
    pub open spec fn wf(&self) -> bool {
        &&& self.keys().no_duplicates()
        &&& self.keys().len() == self.values().len()
    }

    /// The view of a well-formed map holds the keys of the entries, each with
    /// the value of its entry.
    pub proof fn lemma_view(&self)
        requires
            self.wf(),
        ensures
            self@.dom().finite(),
            self@.dom() == self.keys().to_set(),
            self@.len() == self.keys().len(),
            forall|i: int|
                0 <= i < self.keys().len() ==> #[trigger] self@.contains_key(self.keys()[i])
                    && self@[self.keys()[i]] == self.values()[i],
            forall|k: K::V| #[trigger] self@.contains_key(k) <==> self.keys().contains(k),
    {
        let keys = self.keys();
        assert(self@.dom() =~= keys.to_set());
        keys.unique_seq_to_set();
        assert forall|i: int| 0 <= i < keys.len() implies #[trigger] self@.contains_key(keys[i])
            && self@[keys[i]] == self.values()[i] by {
            assert(keys.contains(keys[i]));
            let j = keys.index_of(keys[i]);
            assert(keys[j] == keys[i]);
        }
    }

    /// The empty map.
    pub fn new() -> (m: Self)
        ensures
            m.keys() == Seq::<K::V>::empty(),
            m.values() == Seq::<V>::empty(),
            m@ == Map::<K::V, V>::empty(),
            m.wf(),
    {
        let m = VecMap { entries: Vec::new() };
        assert(m.keys() =~= Seq::<K::V>::empty());
        assert(m.values() =~= Seq::<V>::empty());
        assert(m@ =~= Map::<K::V, V>::empty());
        m
    }

    /// The number of entries.
    pub fn len(&self) -> (n: usize)
        ensures
            n == self.keys().len(),
            n == self.values().len(),
            n == self@.len(),
    {
        proof {
            use_type_invariant(self);
            self.lemma_view();
        }
        self.entries.len()
    }

    /// Whether the map has no entry.
    pub fn is_empty(&self) -> (b: bool)
        ensures
            b == (self.keys().len() == 0),
            b == (self@ == Map::<K::V, V>::empty()),
    {
        proof {
            use_type_invariant(self);
            self.lemma_view();
            if self.keys().len() == 0 {
                assert(self@ =~= Map::<K::V, V>::empty());
            } else {
                assert(self@.contains_key(self.keys()[0]));
            }
        }
        self.entries.len() == 0
    }

    /// The place of `key` among the entries.
    pub fn position(&self, key: &K) -> (r: Option<usize>)
        ensures
            self.wf(),
            match r {
                Some(i) => i < self.keys().len() && self.keys()[i as int] == key@
                    && self.keys().index_of(key@) == i,
                None => !self.keys().contains(key@),
            },
            r is Some == self@.contains_key(key@),
    {
        proof {
            use_type_invariant(self);
            self.lemma_view();
        }
        let mut i: usize = 0;
        while i < self.entries.len()
            invariant
                i <= self.entries.len(),
                self.wf(),
                self.keys().len() == self.entries.len(),
                forall|j: int| 0 <= j < i ==> self.keys()[j] != key@,
            decreases self.entries.len() - i,
        {
            if self.entries[i].0.same_key(key) {
                proof {
                    assert(self.keys()[i as int] == key@);
                    assert(self.keys().contains(key@));
                    let j = self.keys().index_of(key@);
                    assert(self.keys()[j] == key@);
                }
                return Some(i);
            }
            i += 1;
        }
        None
    }

    /// Whether `key` has an entry.
    pub fn contains_key(&self, key: &K) -> (b: bool)
        ensures
            b == self@.contains_key(key@),
            b == self.keys().contains(key@),
    {
        self.position(key).is_some()
    }

    /// The value of `key`, if it has one.
    pub fn get(&self, key: &K) -> (r: Option<&V>)
        ensures
            match r {
                Some(v) => self@.contains_key(key@) && *v == self@[key@],
                None => !self@.contains_key(key@),
            },
    {
        match self.position(key) {
            Some(i) => {
                proof {
                    self.lemma_view();
                }
                Some(&self.entries[i].1)
            },
            None => None,
        }
    }

    /// The key of the `i`-th entry.
    pub fn key_at(&self, i: usize) -> (k: &K)
        requires
            i < self.keys().len(),
        ensures
            k@ == self.keys()[i as int],
    {
        &self.entries[i].0
    }

    /// The value of the `i`-th entry.
    pub fn value_at(&self, i: usize) -> (v: &V)
        requires
            i < self.keys().len(),
        ensures
            *v == self.values()[i as int],
            self.wf(),
            *v == self@[self.keys()[i as int]],
    {
        proof {
            use_type_invariant(self);
            self.lemma_view();
        }
        &self.entries[i].1
    }

    /// Gives `key` the value `value`: in place where `key` has an entry, and
    /// in a new last entry where it has none.
    pub fn insert(&mut self, key: K, value: V)
        ensures
            final(self).wf(),
            final(self)@ == old(self)@.insert(key@, value),
            old(self).keys().contains(key@) ==> final(self).keys() == old(self).keys()
                && final(self).values() == old(self).values().update(
                old(self).keys().index_of(key@),
                value,
            ),
            !old(self).keys().contains(key@) ==> final(self).keys() == old(self).keys().push(key@)
                && final(self).values() == old(self).values().push(value),
    {
        let ghost before = *self;
        proof {
            use_type_invariant(&*self);
            before.lemma_view();
        }
        match self.position(&key) {
            Some(i) => {
                let mut entries: Vec<(K, V)> = Vec::new();
                core::mem::swap(&mut self.entries, &mut entries);
                entries.set(i, (key, value));
                proof {
                    assert(entry_keys(entries@) =~= before.keys());
                    assert(entry_values(entries@) =~= before.values().update(i as int, value));
                }
                core::mem::swap(&mut self.entries, &mut entries);
                proof {
                    assert(self.keys() =~= before.keys());
                    assert(self.values() =~= before.values().update(i as int, value));
                    self.lemma_view();
                    assert forall|k: K::V| #[trigger]
                        before@.insert(key@, value).contains_key(k) implies self@[k]
                        == before@.insert(key@, value)[k] by {
                        let j = self.keys().index_of(k);
                        assert(self.keys()[j] == k);
                    }
                    assert(self@ =~= before@.insert(key@, value));
                }
            },
            None => {
                let mut entries: Vec<(K, V)> = Vec::new();
                core::mem::swap(&mut self.entries, &mut entries);
                entries.push((key, value));
                proof {
                    assert(entry_keys(entries@) =~= before.keys().push(key@));
                    assert(entry_values(entries@) =~= before.values().push(value));
                    assert(entry_keys(entries@).no_duplicates());
                }
                core::mem::swap(&mut self.entries, &mut entries);
                proof {
                    assert(self.keys() =~= before.keys().push(key@));
                    assert(self.values() =~= before.values().push(value));
                    assert(self.keys().no_duplicates());
                    self.lemma_view();
                    assert forall|k: K::V| #[trigger]
                        before@.insert(key@, value).contains_key(k) implies self@.contains_key(k)
                        && self@[k] == before@.insert(key@, value)[k] by {
                        if k == key@ {
                            assert(self.keys()[before.keys().len() as int] == k);
                        } else {
                            let j = before.keys().index_of(k);
                            assert(before.keys()[j] == k);
                            assert(self.keys()[j] == k);
                        }
                    }
                    assert forall|k: K::V| #[trigger] self@.contains_key(k) implies before@.insert(
                        key@,
                        value,
                    ).contains_key(k) by {
                        let j = self.keys().index_of(k);
                        assert(self.keys()[j] == k);
                        if j < before.keys().len() {
                            assert(before.keys()[j] == k);
                        }
                    }
                    assert(self@ =~= before@.insert(key@, value));
                }
            },
        }
    }

    /// Takes the entry of `key` out, if it has one, and returns its value.
    /// The other entries keep their order.
    pub fn remove(&mut self, key: &K) -> (r: Option<V>)
        ensures
            final(self).wf(),
            r == old(self)@.get(key@),
            final(self)@ == old(self)@.remove(key@),
            old(self).keys().contains(key@) ==> final(self).keys() == old(self).keys().remove(
                old(self).keys().index_of(key@),
            ) && final(self).values() == old(self).values().remove(
                old(self).keys().index_of(key@),
            ),
            !old(self).keys().contains(key@) ==> final(self).keys() == old(self).keys()
                && final(self).values() == old(self).values(),
    {
        let ghost before = *self;
        proof {
            use_type_invariant(&*self);
            before.lemma_view();
        }
        match self.position(key) {
            Some(i) => {
                let mut entries: Vec<(K, V)> = Vec::new();
                core::mem::swap(&mut self.entries, &mut entries);
                let entry = entries.remove(i);
                proof {
                    assert(entry.1 == before.values()[i as int]);
                    assert(entry_keys(entries@) =~= before.keys().remove(i as int));
                    assert(entry_values(entries@) =~= before.values().remove(i as int));
                    assert(entry_keys(entries@).no_duplicates());
                }
                core::mem::swap(&mut self.entries, &mut entries);
                proof {
                    assert(self.keys() =~= before.keys().remove(i as int));
                    assert(self.values() =~= before.values().remove(i as int));
                    assert(self.keys().no_duplicates());
                    self.lemma_view();
                    assert forall|k: K::V| #[trigger]
                        before@.remove(key@).contains_key(k) implies self@.contains_key(k)
                        && self@[k] == before@.remove(key@)[k] by {
                        let j = before.keys().index_of(k);
                        assert(before.keys()[j] == k);
                        if j < i {
                            assert(self.keys()[j] == k);
                        } else {
                            assert(self.keys()[j - 1] == k);
                        }
                    }
                    assert forall|k: K::V| #[trigger] self@.contains_key(k) implies before@.remove(
                        key@,
                    ).contains_key(k) by {
                        let j = self.keys().index_of(k);
                        assert(self.keys()[j] == k);
                        if j < i {
                            assert(before.keys()[j] == k);
                        } else {
                            assert(before.keys()[j + 1] == k);
                        }
                    }
                    assert(self@ =~= before@.remove(key@));
                }
                Some(entry.1)
            },
            None => {
                proof {
                    assert(self@ =~= before@.remove(key@));
                }
                None
            },
        }
    }
}

} // verus!
