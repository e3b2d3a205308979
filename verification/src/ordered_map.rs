//! An insertion-ordered map.
//!
//! The standard hash map gives no verifiable account of itself for keys such
//! as `String`, so the crate keeps its tables in this small structure: two
//! parallel vectors in which no key occurs twice. Keys are told apart by
//! their views. The map's view is a mathematical map from key views to
//! values; the order of insertion is exposed through `keys()`.

use vstd::prelude::*;

verus! {

/// A type whose values can serve as keys: two keys are the same key where
/// their views are equal, and `same` decides it.
pub trait Key: View + Sized {
    fn same(&self, other: &Self) -> (same: bool)
        ensures
            same == (self@ == other@),
    ;
}

impl Key for String {
    fn same(&self, other: &Self) -> (same: bool) {
        *self == *other
    }
}

impl Key for u128 {
    fn same(&self, other: &Self) -> (same: bool) {
        *self == *other
    }
}

impl Key for [u8; 32] {
    fn same(&self, other: &Self) -> (same: bool) {
        let mut i: usize = 0;
        while i < 32
            invariant
                i <= 32,
                forall|j: int| 0 <= j < i ==> self@[j] == other@[j],
            decreases 32 - i,
        {
            if self[i] != other[i] {
                return false;
            }
            i += 1;
        }
        assert(self@ =~= other@);
        true
    }
}

/// The map: the keys in order of insertion, and the value of each.
pub struct OrderedMap<K: Key, V> {
    keys: Vec<K>,
    values: Vec<V>,
}

/// A map with strings as keys.
pub type StringMap<V> = OrderedMap<String, V>;

/// A map with 128-bit identifiers as keys.
pub type IdMap<V> = OrderedMap<u128, V>;

impl<K: Key, V> View for OrderedMap<K, V> {
    type V = Map<K::V, V>;

    open spec fn view(&self) -> Map<K::V, V> {
        Map::new(
            |k: K::V| self.keys().contains(k),
            |k: K::V| self.values()[self.keys().index_of(k)],
        )
    }
}

impl<K: Key, V> OrderedMap<K, V> {
    /// The keys, in order of first insertion.
    pub closed spec fn keys(&self) -> Seq<K::V> {
        Seq::new(self.keys@.len(), |i: int| self.keys@[i]@)
    }

    /// The values, each at the index of its key.
    pub closed spec fn values(&self) -> Seq<V> {
        self.values@
    }

    /// Every key has one value and occurs once.
    pub open spec fn wf(&self) -> bool {
        &&& self.keys().len() == self.values().len()
        &&& self.keys().no_duplicates()
    }

    /// In a well-formed map the value of the key at index `i` is `values()[i]`.
    pub proof fn lemma_view_at(&self, i: int)
        requires
            self.wf(),
            0 <= i < self.keys().len(),
        ensures
            self@.contains_key(self.keys()[i]),
            self@[self.keys()[i]] == self.values()[i],
            self.keys().index_of(self.keys()[i]) == i,
    {
        let k = self.keys()[i];
        let j = self.keys().index_of(k);
        assert(0 <= j < self.keys().len() && self.keys()[j] == k);
    }

    /// An empty map.
    pub fn new() -> (m: Self)
        ensures
            m.wf(),
            m.keys() == Seq::<K::V>::empty(),
            m.values() == Seq::<V>::empty(),
            m@ == Map::<K::V, V>::empty(),
    {
        let m = OrderedMap { keys: Vec::new(), values: Vec::new() };
        assert(m.keys() =~= Seq::<K::V>::empty());
        assert(m@ =~= Map::<K::V, V>::empty());
        m
    }

    /// The number of keys.
    pub fn len(&self) -> (n: usize)
        requires
            self.wf(),
        ensures
            n == self.keys().len(),
    {
        self.keys.len()
    }

    /// The index at which `key` is stored, if it is.
    pub fn position(&self, key: &K) -> (r: Option<usize>)
        requires
            self.wf(),
        ensures
            match r {
                Some(i) => i < self.keys().len() && self.keys()[i as int] == key@,
                None => !self.keys().contains(key@),
            },
            r is Some <==> self@.contains_key(key@),
    {
        let mut i: usize = 0;
        while i < self.keys.len()
            invariant
                i <= self.keys@.len(),
                forall|j: int| 0 <= j < i ==> self.keys()[j] != key@,
            decreases self.keys@.len() - i,
        {
            if self.keys[i].same(key) {
                assert(self.keys()[i as int] == key@);
                return Some(i);
            }
            i += 1;
        }
        None
    }

    /// Whether `key` is in the map.
    pub fn contains_key(&self, key: &K) -> (b: bool)
        requires
            self.wf(),
        ensures
            b == self@.contains_key(key@),
    {
        self.position(key).is_some()
    }

    /// The value of `key`, if it is in the map.
    pub fn get(&self, key: &K) -> (r: Option<&V>)
        requires
            self.wf(),
        ensures
            match r {
                Some(v) => self@.contains_key(key@) && *v == self@[key@],
                None => !self@.contains_key(key@),
            },
    {
        match self.position(key) {
            Some(i) => {
                proof {
                    self.lemma_view_at(i as int);
                }
                Some(&self.values[i])
            },
            None => None,
        }
    }

    /// The key at index `i`.
    pub fn key_at(&self, i: usize) -> (k: &K)
        requires
            self.wf(),
            i < self.keys().len(),
        ensures
            k@ == self.keys()[i as int],
    {
        &self.keys[i]
    }

    /// The value at index `i`.
    pub fn value_at(&self, i: usize) -> (v: &V)
        requires
            self.wf(),
            i < self.keys().len(),
        ensures
            *v == self.values()[i as int],
            *v == self@[self.keys()[i as int]],
    {
        proof {
            self.lemma_view_at(i as int);
        }
        &self.values[i]
    }

    /// Lends the value stored at index `i` for change in place.
    pub fn value_at_mut(&mut self, i: usize) -> (v: &mut V)
        requires
            old(self).wf(),
            i < old(self).keys().len(),
        ensures
            *v == old(self).values()[i as int],
            final(self).wf(),
            final(self).keys() == old(self).keys(),
            final(self).values() == old(self).values().update(i as int, *final(v)),
            final(self)@ == old(self)@.insert(old(self).keys()[i as int], *final(v)),
    {
        proof {
            let k = old(self).keys()[i as int];
            old(self).lemma_view_at(i as int);
            Self::lemma_update_view(*old(self), i as int);
        }
        &mut self.values[i]
    }

    /// Changing the value at an index changes the view at that index's key,
    /// and nothing else.
    proof fn lemma_update_view(before: Self, i: int)
        requires
            before.wf(),
            0 <= i < before.keys().len(),
        ensures
            forall|after: Self|
                after.keys() == before.keys() && (exists|v: V| #[trigger]
                    after.values() == before.values().update(i, v)) ==> after.wf() && after@
                    == before@.insert(before.keys()[i], after.values()[i]),
    {
        assert forall|after: Self|
            after.keys() == before.keys() && (exists|v: V| #[trigger]
                after.values() == before.values().update(i, v)) implies after.wf() && after@
            == before@.insert(before.keys()[i], after.values()[i]) by {
            let k = before.keys()[i];
            before.lemma_view_at(i);
            assert forall|q: K::V| after@.contains_key(q) implies #[trigger] after@[q]
                == before@.insert(k, after.values()[i])[q] by {
                let j = after.keys().index_of(q);
                assert(0 <= j < after.keys().len() && after.keys()[j] == q);
            }
            assert(after@ =~= before@.insert(k, after.values()[i]));
        }
    }

    /// Replaces the value stored at index `i`.
    pub fn set_value(&mut self, i: usize, value: V)
        requires
            old(self).wf(),
            i < old(self).keys().len(),
        ensures
            final(self).wf(),
            final(self).keys() == old(self).keys(),
            final(self).values() == old(self).values().update(i as int, value),
            final(self)@ == old(self)@.insert(old(self).keys()[i as int], value),
    {
        self.values.set(i, value);
        proof {
            assert(self.keys() =~= old(self).keys());
            let k = old(self).keys()[i as int];
            old(self).lemma_view_at(i as int);
            assert forall|q: K::V| self@.contains_key(q) implies #[trigger] self@[q] == old(
                self,
            )@.insert(k, value)[q] by {
                let j = self.keys().index_of(q);
                assert(0 <= j < self.keys().len() && self.keys()[j] == q);
            }
            assert(self@ =~= old(self)@.insert(k, value));
        }
    }

    /// Appends a key that the map does not hold yet.
    pub fn push_new(&mut self, key: K, value: V)
        requires
            old(self).wf(),
            !old(self)@.contains_key(key@),
        ensures
            final(self).wf(),
            final(self).keys() == old(self).keys().push(key@),
            final(self).values() == old(self).values().push(value),
            final(self)@ == old(self)@.insert(key@, value),
    {
        self.keys.push(key);
        self.values.push(value);
        proof {
            assert(self.keys() =~= old(self).keys().push(key@));
            assert forall|q: K::V| self@.contains_key(q) implies #[trigger] self@[q] == old(
                self,
            )@.insert(key@, value)[q] by {
                let j = self.keys().index_of(q);
                assert(0 <= j < self.keys().len() && self.keys()[j] == q);
                if q != key@ {
                    let j0 = old(self).keys().index_of(q);
                    assert(0 <= j0 < old(self).keys().len() && old(self).keys()[j0] == q);
                    assert(self.keys()[j0] == q);
                    assert(j == j0);
                }
            }
            assert forall|q: K::V| old(self)@.insert(key@, value).contains_key(q) implies self@.contains_key(q) by {
                if q != key@ {
                    let j0 = old(self).keys().index_of(q);
                    assert(0 <= j0 < old(self).keys().len() && old(self).keys()[j0] == q);
                    assert(self.keys()[j0] == q);
                } else {
                    assert(self.keys()[old(self).keys().len() as int] == q);
                }
            }
            assert(self@ =~= old(self)@.insert(key@, value));
        }
    }

    /// Stores `value` under `key`: in place of the old value where the key is
    /// present, at the end otherwise. Returns whether the key was present.
    pub fn insert(&mut self, key: K, value: V) -> (replaced: bool)
        requires
            old(self).wf(),
        ensures
            final(self).wf(),
            replaced == old(self)@.contains_key(key@),
            final(self)@ == old(self)@.insert(key@, value),
            replaced ==> final(self).keys() == old(self).keys()
                && final(self).values() == old(self).values().update(
                old(self).keys().index_of(key@),
                value,
            ),
            !replaced ==> final(self).keys() == old(self).keys().push(key@)
                && final(self).values() == old(self).values().push(value),
    {
        match self.position(&key) {
            Some(i) => {
                proof {
                    self.lemma_view_at(i as int);
                }
                self.set_value(i, value);
                true
            },
            None => {
                self.push_new(key, value);
                false
            },
        }
    }

    /// Takes `key` and its value out, keeping the order of the others.
    pub fn remove(&mut self, key: &K) -> (r: Option<V>)
        requires
            old(self).wf(),
        ensures
            final(self).wf(),
            final(self)@ == old(self)@.remove(key@),
            match r {
                Some(v) => old(self)@.contains_key(key@) && v == old(self)@[key@]
                    && final(self).keys() == old(self).keys().remove(
                    old(self).keys().index_of(key@),
                ) && final(self).values() == old(self).values().remove(
                    old(self).keys().index_of(key@),
                ),
                None => !old(self)@.contains_key(key@) && final(self).keys() == old(self).keys()
                    && final(self).values() == old(self).values(),
            },
    {
        match self.position(key) {
            Some(i) => {
                proof {
                    self.lemma_view_at(i as int);
                }
                self.keys.remove(i);
                let v = self.values.remove(i);
                proof {
                    let ok = old(self).keys();
                    assert(self.keys() =~= ok.remove(i as int));
                    assert forall|a: int, b: int|
                        0 <= a < self.keys().len() && 0 <= b < self.keys().len() && a != b implies self.keys()[a]
                        != self.keys()[b] by {
                        let a0 = if a < i { a } else { a + 1 };
                        let b0 = if b < i { b } else { b + 1 };
                        assert(self.keys()[a] == ok[a0]);
                        assert(self.keys()[b] == ok[b0]);
                    }
                    assert forall|q: K::V| #[trigger]
                        self@.contains_key(q) == old(self)@.remove(key@).contains_key(q) by {
                        if self.keys().contains(q) {
                            let j = self.keys().index_of(q);
                            assert(0 <= j < self.keys().len() && self.keys()[j] == q);
                            let j0 = if j < i { j } else { j + 1 };
                            assert(ok[j0] == q);
                        }
                        if ok.contains(q) && q != key@ {
                            let j0 = ok.index_of(q);
                            assert(0 <= j0 < ok.len() && ok[j0] == q);
                            let j = if j0 < i { j0 } else { j0 - 1 };
                            assert(self.keys()[j] == q);
                        }
                    }
                    assert forall|q: K::V| self@.contains_key(q) implies #[trigger] self@[q]
                        == old(self)@.remove(key@)[q] by {
                        let j = self.keys().index_of(q);
                        assert(0 <= j < self.keys().len() && self.keys()[j] == q);
                        let j0 = if j < i { j } else { j + 1 };
                        assert(ok[j0] == q);
                        old(self).lemma_view_at(j0);
                    }
                    assert(self@ =~= old(self)@.remove(key@));
                }
                Some(v)
            },
            None => {
                proof {
                    assert(self@ =~= old(self)@.remove(key@));
                }
                None
            },
        }
    }
}

} // verus!
