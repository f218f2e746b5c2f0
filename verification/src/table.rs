//! A map from text keys to values, kept in insertion order.

use vstd::prelude::*;
use crate::strings::str_eq;

verus! {

/// A map keyed by text. No key occurs twice; entries keep the order in which
/// their keys were first inserted.
#[derive(Debug)]
pub struct StringMap<T> {
    entries: Vec<(String, T)>,
}

/// Whether no key text occurs twice among `entries`.
pub open spec fn distinct_keys<T>(entries: Seq<(String, T)>) -> bool {
    forall|i: int, j: int|
        0 <= i < entries.len() && 0 <= j < entries.len() && i != j ==> entries[i].0@
            != entries[j].0@
}

impl<T> StringMap<T> {
    #[verifier::type_invariant]
    spec fn distinct(self) -> bool {
        distinct_keys(self.entries@)
    }

    /// The entries in insertion order.
    pub closed spec fn entries(&self) -> Seq<(String, T)> {
        self.entries@
    }

    /// The map from key text to value.
    pub open spec fn view(&self) -> Map<Seq<char>, T> {
        Map::new(
            |k: Seq<char>| self.index_of(k) is Some,
            |k: Seq<char>| self.entries()[self.index_of(k)->0].1,
        )
    }

    /// The position of the entry with key `k`, if there is one.
    pub open spec fn index_of(&self, k: Seq<char>) -> Option<int> {
        if exists|i: int| 0 <= i < self.entries().len() && self.entries()[i].0@ == k {
            Some(choose|i: int| 0 <= i < self.entries().len() && self.entries()[i].0@ == k)
        } else {
            None
        }
    }

    /// An empty map.
    pub fn new() -> (m: StringMap<T>)
        ensures
            m@ == Map::<Seq<char>, T>::empty(),
            m.entries() == Seq::<(String, T)>::empty(),
    {
        let m = StringMap { entries: Vec::new() };
        assert(m@ =~= Map::<Seq<char>, T>::empty());
        m
    }

    /// The entries, in insertion order.
    pub fn into_entries(self) -> (entries: Vec<(String, T)>)
        ensures
            entries@ == self.entries(),
            distinct_keys(entries@),
    {
        proof {
            use_type_invariant(&self);
        }
        self.entries
    }

    /// How many entries the map holds.
    pub fn len(&self) -> (n: usize)
        ensures
            n == self.entries().len(),
            distinct_keys(self.entries()),
    {
        proof {
            use_type_invariant(self);
        }
        self.entries.len()
    }

    /// Whether the map holds no entry.
    pub fn is_empty(&self) -> (r: bool)
        ensures
            r == (self.entries().len() == 0),
            r == (self@ == Map::<Seq<char>, T>::empty()),
    {
        let r = self.entries.len() == 0;
        proof {
            use_type_invariant(self);
            if r {
                assert(self@ =~= Map::<Seq<char>, T>::empty());
            } else {
                assert(self.entries()[0].0@ == self.entries()[0].0@);
                assert(self@.contains_key(self.entries()[0].0@));
            }
        }
        r
    }

    /// The key of the `i`-th entry.
    pub fn key_at(&self, i: usize) -> (k: &String)
        requires
            i < self.entries().len(),
        ensures
            *k == self.entries()[i as int].0,
            self.index_of(k@) == Some(i as int),
            self@.contains_key(k@),
            self@[k@] == self.entries()[i as int].1,
    {
        proof {
            use_type_invariant(self);
        }
        &self.entries[i].0
    }

    /// The value of the `i`-th entry.
    pub fn value_at(&self, i: usize) -> (v: &T)
        requires
            i < self.entries().len(),
        ensures
            *v == self.entries()[i as int].1,
    {
        &self.entries[i].1
    }

    /// The position of the entry with key `key`, if there is one.
    pub fn position(&self, key: &str) -> (r: Option<usize>)
        ensures
            match r {
                Some(i) => self.index_of(key@) == Some(i as int) && i < self.entries().len()
                    && self.entries()[i as int].0@ == key@,
                None => self.index_of(key@) is None,
            },
            r is Some == self@.contains_key(key@),
    {
        proof {
            use_type_invariant(self);
        }
        let mut i: usize = 0;
        while i < self.entries.len()
            invariant
                i <= self.entries.len(),
                distinct_keys(self.entries@),
                forall|k: int| 0 <= k < i ==> self.entries[k].0@ != key@,
            decreases self.entries.len() - i,
        {
            if str_eq(self.entries[i].0.as_str(), key) {
                return Some(i);
            }
            i = i + 1;
        }
        None
    }

    /// Whether the map has an entry with key `key`.
    pub fn contains_key(&self, key: &str) -> (r: bool)
        ensures
            r == self@.contains_key(key@),
    {
        self.position(key).is_some()
    }

    /// The value stored under `key`, if any.
    pub fn get(&self, key: &str) -> (r: Option<&T>)
        ensures
            match r {
                Some(v) => self@.contains_key(key@) && *v == self@[key@],
                None => !self@.contains_key(key@),
            },
    {
        match self.position(key) {
            Some(i) => Some(&self.entries[i].1),
            None => None,
        }
    }

    /// Stores `value` under `key`. Returns the value that was stored there
    /// before, if any. A key that was present keeps its place; a new key
    /// goes last.
    pub fn insert(&mut self, key: String, value: T) -> (previous: Option<T>)
        ensures
            final(self)@ == old(self)@.insert(key@, value),
            match previous {
                Some(p) => old(self)@.contains_key(key@) && p == old(self)@[key@],
                None => !old(self)@.contains_key(key@),
            },
            match old(self).index_of(key@) {
                Some(i) => final(self).entries().len() == old(self).entries().len(),
                None => final(self).entries() == old(self).entries().push((key, value)),
            },
    {
        proof {
            use_type_invariant(&*self);
        }
        let found = self.position(key.as_str());
        let mut entries: Vec<(String, T)> = Vec::new();
        core::mem::swap(&mut self.entries, &mut entries);
        let ghost before = entries@;
        let previous = match found {
            Some(i) => {
                let old_entry = entries.remove(i);
                entries.insert(i, (key, value));
                assert(entries@ =~= before.update(i as int, (key, value)));
                Some(old_entry.1)
            },
            None => {
                entries.push((key, value));
                None
            },
        };
        core::mem::swap(&mut self.entries, &mut entries);
        proof {
            assert(distinct_keys(self.entries()));
            let target = old(self)@.insert(key@, value);
            assert forall|k: Seq<char>| target.contains_key(k) implies #[trigger] self@.contains_key(k)
                && self@[k] == target[k] by {
                if k == key@ {
                    let i = match found {
                        Some(i) => i as int,
                        None => before.len() as int,
                    };
                    assert(self.entries()[i].0@ == k);
                    let c = self.index_of(k)->0;
                    assert(c == i);
                } else {
                    let i = old(self).index_of(k)->0;
                    assert(self.entries()[i].0@ == k);
                    let c = self.index_of(k)->0;
                    assert(c == i);
                }
            }
            assert forall|k: Seq<char>| self@.contains_key(k) implies #[trigger] target.contains_key(k) by {
                let c = self.index_of(k)->0;
                if k != key@ {
                    assert(before[c].0@ == k);
                }
            }
            assert(self@ =~= target);
        }
        previous
    }

    /// Takes the entry with key `key` out of the map. Returns its value, if
    /// there was one. The other entries keep their order.
    pub fn remove(&mut self, key: &str) -> (removed: Option<T>)
        ensures
            final(self)@ == old(self)@.remove(key@),
            match removed {
                Some(v) => old(self)@.contains_key(key@) && v == old(self)@[key@],
                None => !old(self)@.contains_key(key@),
            },
            match old(self).index_of(key@) {
                Some(i) => final(self).entries() == old(self).entries().remove(i),
                None => final(self).entries() == old(self).entries(),
            },
    {
        proof {
            use_type_invariant(&*self);
        }
        match self.position(key) {
            Some(i) => {
                let mut entries: Vec<(String, T)> = Vec::new();
                core::mem::swap(&mut self.entries, &mut entries);
                let ghost before = entries@;
                let entry = entries.remove(i);
                core::mem::swap(&mut self.entries, &mut entries);
                proof {
                    assert(distinct_keys(self.entries()));
                    let target = old(self)@.remove(key@);
                    assert forall|k: Seq<char>| target.contains_key(k) implies #[trigger] self@.contains_key(
                        k,
                    ) && self@[k] == target[k] by {
                        let j = old(self).index_of(k)->0;
                        let n = if j < i { j } else { j - 1 };
                        assert(self.entries()[n].0@ == k);
                        let c = self.index_of(k)->0;
                        assert(c == n);
                    }
                    assert forall|k: Seq<char>| self@.contains_key(k) implies #[trigger] target.contains_key(
                        k,
                    ) by {
                        let c = self.index_of(k)->0;
                        let j = if c < i { c } else { c + 1 };
                        assert(before[j].0@ == k);
                    }
                    assert(self@ =~= target);
                }
                Some(entry.1)
            },
            None => {
                assert(self@ =~= old(self)@.remove(key@));
                None
            },
        }
    }
}

} // verus!
