//! A map from names to values that remembers the order of insertion.

use crate::text::same_text;
use vstd::prelude::*;

verus! {

/// The map that pairs `keys[i]` with `vals[i]`.
pub open spec fn pairs_map<V>(keys: Seq<Seq<char>>, vals: Seq<V>) -> Map<Seq<char>, V> {
    Map::new(|k: Seq<char>| keys.contains(k), |k: Seq<char>| vals[keys.index_of(k)])
}

/// In a list without repetition, an element is found at its own position.
pub proof fn lemma_index_of(keys: Seq<Seq<char>>, i: int)
    requires
        keys.no_duplicates(),
        0 <= i < keys.len(),
    ensures
        keys.contains(keys[i]),
        keys.index_of(keys[i]) == i,
{
    let j = keys.index_of(keys[i]);
    assert(0 <= j < keys.len() && keys[j] == keys[i]);
}

/// Replacing the value at `i` is an insertion under the key at `i`.
pub proof fn lemma_pairs_update<V>(keys: Seq<Seq<char>>, vals: Seq<V>, i: int, v: V)
    requires
        keys.no_duplicates(),
        keys.len() == vals.len(),
        0 <= i < keys.len(),
    ensures
        pairs_map(keys, vals.update(i, v)) == pairs_map(keys, vals).insert(keys[i], v),
{
    lemma_index_of(keys, i);
    assert forall|k: Seq<char>| keys.contains(k) implies #[trigger] pairs_map(
        keys,
        vals.update(i, v),
    )[k] == pairs_map(keys, vals).insert(keys[i], v)[k] by {
        let j = keys.index_of(k);
        assert(0 <= j < keys.len() && keys[j] == k);
    }
    assert(pairs_map(keys, vals.update(i, v)) =~= pairs_map(keys, vals).insert(keys[i], v));
}

/// Appending a pair under a new key is an insertion.
pub proof fn lemma_pairs_push<V>(keys: Seq<Seq<char>>, vals: Seq<V>, k: Seq<char>, v: V)
    requires
        keys.no_duplicates(),
        keys.len() == vals.len(),
        !keys.contains(k),
    ensures
        keys.push(k).no_duplicates(),
        pairs_map(keys.push(k), vals.push(v)) == pairs_map(keys, vals).insert(k, v),
{
    let keys2 = keys.push(k);
    let vals2 = vals.push(v);
    assert(keys2.no_duplicates()) by {
        assert forall|a: int, b: int| 0 <= a < keys2.len() && 0 <= b < keys2.len() && a != b implies keys2[a] != keys2[b] by {
            if a < keys.len() && b < keys.len() {
            } else if a < keys.len() {
                assert(keys.contains(keys[a]));
            } else {
                assert(keys.contains(keys[b]));
            }
        }
    }
    assert forall|q: Seq<char>| keys2.contains(q) <==> (keys.contains(q) || q == k) by {
        if keys.contains(q) {
            let j = keys.index_of(q);
            assert(keys2[j] == q);
        }
        if q == k {
            assert(keys2[keys.len() as int] == q);
        }
        if keys2.contains(q) {
            let j = keys2.index_of(q);
            assert(0 <= j < keys2.len() && keys2[j] == q);
            if j < keys.len() {
                assert(keys[j] == q);
            }
        }
    }
    assert forall|q: Seq<char>| keys2.contains(q) implies #[trigger] pairs_map(keys2, vals2)[q]
        == pairs_map(keys, vals).insert(k, v)[q] by {
        let j = keys2.index_of(q);
        assert(0 <= j < keys2.len() && keys2[j] == q);
        if j < keys.len() {
            assert(keys[j] == q);
            lemma_index_of(keys, j);
        } else {
            assert(q == k);
        }
    }
    assert(pairs_map(keys2, vals2) =~= pairs_map(keys, vals).insert(k, v));
}

/// A finite map keyed by name. Names are unique; entries keep the order in
/// which their names were first inserted.
#[derive(Debug)]
pub struct NameMap<T> {
    names: Vec<String>,
    items: Vec<T>,
}

impl<T> NameMap<T> {
    #[verifier::type_invariant]
    spec fn inv(self) -> bool {
        &&& self.names.len() == self.items.len()
        &&& self.keys().no_duplicates()
    }

    /// The names, in order of insertion.
    pub closed spec fn keys(&self) -> Seq<Seq<char>> {
        crate::text::texts(self.names@)
    }

    /// The values as they are held, aligned with `keys`.
    pub closed spec fn held(&self) -> Seq<T> {
        self.items@
    }
}

impl<T: View> NameMap<T> {
    /// The values, aligned with `keys`.
    pub closed spec fn vals(&self) -> Seq<T::V> {
        Seq::new(self.items@.len(), |i: int| self.items@[i]@)
    }

    /// The empty map.
    pub fn new() -> (m: Self)
        ensures
            m.keys() == Seq::<Seq<char>>::empty(),
            m.vals() == Seq::<T::V>::empty(),
            m@ == Map::<Seq<char>, T::V>::empty(),
    {
        let m = NameMap { names: Vec::new(), items: Vec::new() };
        assert(m.keys() =~= Seq::<Seq<char>>::empty());
        assert(m.vals() =~= Seq::<T::V>::empty());
        assert(m@ =~= Map::<Seq<char>, T::V>::empty());
        m
    }

    /// The number of entries.
    pub fn len(&self) -> (n: usize)
        ensures
            n == self.keys().len(),
            n == self.vals().len(),
            n == self.held().len(),
            n == self@.dom().len(),
            self.keys().no_duplicates(),
    {
        proof {
            use_type_invariant(self);
            self.lemma_dom();
            self.keys().unique_seq_to_set();
        }
        self.names.len()
    }

    /// Whether the map has no entry.
    pub fn is_empty(&self) -> (r: bool)
        ensures
            r == (self.keys().len() == 0),
            r == (self@.dom() == Set::<Seq<char>>::empty()),
    {
        proof {
            use_type_invariant(self);
            self.lemma_dom();
            if self.keys().len() == 0 {
                assert(self@.dom() =~= Set::<Seq<char>>::empty());
            } else {
                assert(self.keys().contains(self.keys()[0]));
                assert(self@.dom().contains(self.keys()[0]));
            }
        }
        self.names.len() == 0
    }

    proof fn lemma_dom(&self)
        ensures
            self@.dom() == self.keys().to_set(),
            self@.dom().finite(),
    {
        assert(self@.dom() =~= self.keys().to_set());
        vstd::seq_lib::seq_to_set_is_finite(self.keys());
    }

    /// The position of `name` among the keys, if it is one.
    pub fn position(&self, name: &str) -> (r: Option<usize>)
        ensures
            self.keys().no_duplicates(),
            self.keys().len() == self.vals().len(),
            match r {
                Some(i) => i < self.keys().len() && self.keys()[i as int] == name@,
                None => !self.keys().contains(name@),
            },
    {
        proof {
            use_type_invariant(self);
        }
        let mut i: usize = 0;
        while i < self.names.len()
            invariant
                i <= self.names.len(),
                self.names.len() == self.items.len(),
                self.keys().no_duplicates(),
                forall|j: int| 0 <= j < i ==> self.keys()[j] != name@,
            decreases self.names.len() - i,
        {
            if same_text(self.names[i].as_str(), name) {
                return Some(i);
            }
            i += 1;
        }
        None
    }

    /// Whether `name` is a key.
    pub fn contains_key(&self, name: &str) -> (r: bool)
        ensures
            r == self@.dom().contains(name@),
    {
        self.position(name).is_some()
    }

    /// The value stored under `name`.
    pub fn get(&self, name: &str) -> (r: Option<&T>)
        ensures
            match r {
                Some(t) => self@.dom().contains(name@) && t@ == self@[name@],
                None => !self@.dom().contains(name@),
            },
    {
        match self.position(name) {
            Some(i) => {
                proof {
                    lemma_index_of(self.keys(), i as int);
                }
                Some(&self.items[i])
            },
            None => None,
        }
    }

    /// The entry at position `i`, if there is one: its key and its value.
    pub fn entry(&self, i: usize) -> (r: Option<(&String, &T)>)
        ensures
            match r {
                Some((key, value)) => {
                    &&& i < self.keys().len()
                    &&& key@ == self.keys()[i as int]
                    &&& value@ == self.vals()[i as int]
                    &&& self@.dom().contains(key@)
                    &&& self@[key@] == value@
                },
                None => i >= self.keys().len(),
            },
    {
        if i < self.len() {
            Some((self.key_at(i), self.value_at(i)))
        } else {
            None
        }
    }

    /// The key at position `i`.
    pub(crate) fn key_at(&self, i: usize) -> (r: &String)
        requires
            i < self.keys().len(),
        ensures
            r@ == self.keys()[i as int],
            self@.dom().contains(r@),
    {
        proof {
            use_type_invariant(self);
            lemma_index_of(self.keys(), i as int);
        }
        &self.names[i]
    }

    /// The value at position `i`.
    pub(crate) fn value_at(&self, i: usize) -> (r: &T)
        requires
            i < self.keys().len(),
        ensures
            *r == self.held()[i as int],
            r@ == self.vals()[i as int],
            r@ == self@[self.keys()[i as int]],
    {
        proof {
            use_type_invariant(self);
            lemma_index_of(self.keys(), i as int);
        }
        &self.items[i]
    }

    /// Stores `value` at position `i`, under the key that is already there.
    pub(crate) fn set_value_at(&mut self, i: usize, value: T)
        requires
            i < old(self).keys().len(),
        ensures
            final(self).keys() == old(self).keys(),
            final(self).vals() == old(self).vals().update(i as int, value@),
            final(self)@ == old(self)@.insert(old(self).keys()[i as int], value@),
    {
        proof {
            use_type_invariant(&*self);
            lemma_pairs_update(self.keys(), self.vals(), i as int, value@);
        }
        let mut taken: NameMap<T> = NameMap::new();
        core::mem::swap(self, &mut taken);
        let NameMap { names, mut items } = taken;
        items.set(i, value);
        let updated = NameMap { names, items };
        assert(updated.vals() =~= old(self).vals().update(i as int, value@));
        *self = updated;
    }

    /// Stores `value` at position `i` and hands out what was there.
    pub(crate) fn swap_value_at(&mut self, i: usize, value: T) -> (previous: T)
        requires
            i < old(self).keys().len(),
        ensures
            previous@ == old(self).vals()[i as int],
            final(self).keys() == old(self).keys(),
            final(self).vals() == old(self).vals().update(i as int, value@),
            final(self)@ == old(self)@.insert(old(self).keys()[i as int], value@),
    {
        proof {
            use_type_invariant(&*self);
            lemma_pairs_update(self.keys(), self.vals(), i as int, value@);
        }
        let mut taken: NameMap<T> = NameMap::new();
        core::mem::swap(self, &mut taken);
        let NameMap { names, mut items } = taken;
        items.push(value);
        let previous = items.swap_remove(i);
        let updated = NameMap { names, items };
        assert(updated.vals() =~= old(self).vals().update(i as int, value@));
        *self = updated;
        previous
    }

    /// Stores `value` under `name`. A new name goes to the end of the
    /// order; a known name keeps its place and its old value is returned.
    pub fn insert(&mut self, name: String, value: T) -> (r: Option<T>)
        ensures
            final(self)@ == old(self)@.insert(name@, value@),
            match r {
                Some(t) => old(self)@.dom().contains(name@) && t@ == old(self)@[name@]
                    && final(self).keys() == old(self).keys() && final(self).vals() == old(
                    self,
                ).vals().update(old(self).keys().index_of(name@), value@),
                None => !old(self)@.dom().contains(name@) && final(self).keys() == old(
                    self,
                ).keys().push(name@) && final(self).vals() == old(self).vals().push(value@),
            },
    {
        proof {
            use_type_invariant(&*self);
        }
        let found = self.position(name.as_str());
        let mut taken: NameMap<T> = NameMap::new();
        core::mem::swap(self, &mut taken);
        let NameMap { mut names, mut items } = taken;
        match found {
            Some(i) => {
                proof {
                    lemma_index_of(old(self).keys(), i as int);
                    lemma_pairs_update(old(self).keys(), old(self).vals(), i as int, value@);
                }
                items.push(value);
                let previous = items.swap_remove(i);
                let updated = NameMap { names, items };
                assert(updated.vals() =~= old(self).vals().update(i as int, value@));
                *self = updated;
                Some(previous)
            },
            None => {
                proof {
                    lemma_pairs_push(old(self).keys(), old(self).vals(), name@, value@);
                }
                names.push(name);
                items.push(value);
                assert(crate::text::texts(names@) =~= old(self).keys().push(name@));
                let updated = NameMap { names, items };
                assert(updated.keys() =~= old(self).keys().push(name@));
                assert(updated.vals() =~= old(self).vals().push(value@));
                *self = updated;
                None
            },
        }
    }
}

impl<T: View> View for NameMap<T> {
    type V = Map<Seq<char>, T::V>;

    open spec fn view(&self) -> Map<Seq<char>, T::V> {
        pairs_map(self.keys(), self.vals())
    }
}

} // verus!
