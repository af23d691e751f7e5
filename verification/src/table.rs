//! Keyed storage.

use crate::address::Address;
use vstd::prelude::*;

verus! {

/// What can name an entry of a [`Table`].
pub trait Key: Copy {
    fn same(&self, other: &Self) -> (same: bool)
        ensures
            same == (*self == *other),
    ;
}

impl Key for u64 {
    fn same(&self, other: &Self) -> (same: bool) {
        *self == *other
    }
}

impl Key for Address {
    fn same(&self, other: &Self) -> (same: bool) {
        *self == *other
    }
}

/// A finite map with one entry per key.
pub struct Table<K, V> {
    entries: Vec<(K, V)>,
}

impl<K, V> Table<K, V> {
    /// No key has two entries.
    #[verifier::type_invariant]
    spec fn wf(&self) -> bool {
        forall|i: int, j: int|
            0 <= i < j < self.entries@.len() ==> (#[trigger] self.entries@[i]).0 != (
            #[trigger] self.entries@[j]).0
    }
}

impl<K: Key, V: View> Table<K, V> {
    spec fn holds_at(&self, key: K, i: int) -> bool {
        0 <= i < self.entries@.len() && self.entries@[i].0 == key
    }

    /// The entries as a map from keys to the values' views.
    pub closed spec fn view(&self) -> Map<K, V::V> {
        Map::new(
            |key: K| exists|i: int| self.holds_at(key, i),
            |key: K| self.entries@[choose|i: int| self.holds_at(key, i)].1@,
        )
    }

    proof fn lemma_at(&self, i: int)
        requires
            self.wf(),
            0 <= i < self.entries@.len(),
        ensures
            self@.contains_key(self.entries@[i].0),
            self@[self.entries@[i].0] == self.entries@[i].1@,
    {
        let key = self.entries@[i].0;
        assert(self.holds_at(key, i));
        let j = choose|j: int| self.holds_at(key, j);
        assert(self.entries@[i].0 == self.entries@[j].0);
    }

    pub fn new() -> (table: Self)
        ensures
            table@ == Map::<K, V::V>::empty(),
    {
        let table = Table { entries: Vec::new() };
        assert(table@ =~= Map::<K, V::V>::empty());
        table
    }

    fn position(&self, key: &K) -> (found: Option<usize>)
        ensures
            match found {
                Some(i) => self.holds_at(*key, i as int),
                None => !self@.contains_key(*key),
            },
    {
        let mut i: usize = 0;
        while i < self.entries.len()
            invariant
                i <= self.entries@.len(),
                forall|j: int| 0 <= j < i ==> (#[trigger] self.entries@[j]).0 != *key,
            decreases self.entries@.len() - i,
        {
            if self.entries[i].0.same(key) {
                return Some(i);
            }
            i = i + 1;
        }
        None
    }

    pub fn contains_key(&self, key: &K) -> (found: bool)
        ensures
            found == self@.contains_key(*key),
    {
        self.position(key).is_some()
    }

    pub fn get(&self, key: &K) -> (value: Option<&V>)
        ensures
            match value {
                Some(v) => self@.contains_key(*key) && v@ == self@[*key],
                None => !self@.contains_key(*key),
            },
    {
        match self.position(key) {
            Some(i) => {
                proof {
                    use_type_invariant(self);
                    self.lemma_at(i as int);
                }
                Some(&self.entries[i].1)
            },
            None => None,
        }
    }

    /// Takes the entry out, if there is one.
    pub fn remove(&mut self, key: &K) -> (value: Option<V>)
        ensures
            final(self)@ == old(self)@.remove(*key),
            match value {
                Some(v) => old(self)@.contains_key(*key) && v@ == old(self)@[*key],
                None => !old(self)@.contains_key(*key),
            },
    {
        match self.position(key) {
            Some(i) => {
                proof {
                    use_type_invariant(&*self);
                    self.lemma_at(i as int);
                }
                let ghost before = *self;
                let mut entries: Vec<(K, V)> = Vec::new();
                std::mem::swap(&mut entries, &mut self.entries);
                let (_, value) = entries.remove(i);
                self.entries = entries;
                proof {
                    let removed = before@.remove(*key);
                    assert forall|k: K| #[trigger] self@.dom().contains(k) implies
                        removed.dom().contains(k) && self@[k] == removed[k] by {
                        let j = choose|j: int| self.holds_at(k, j);
                        self.lemma_at(j);
                        if j < i {
                            assert(self.entries@[j] == before.entries@[j]);
                            before.lemma_at(j);
                        } else {
                            assert(self.entries@[j] == before.entries@[j + 1]);
                            before.lemma_at(j + 1);
                        }
                    }
                    assert forall|k: K| #[trigger] removed.dom().contains(k) implies
                        self@.dom().contains(k) by {
                        let j = choose|j: int| before.holds_at(k, j);
                        if j < i {
                            assert(self.holds_at(k, j));
                        } else {
                            assert(self.holds_at(k, j - 1));
                        }
                    }
                    assert(self@.dom() =~= removed.dom());
                    assert(self@ =~= before@.remove(*key));
                }
                Some(value)
            },
            None => {
                assert(self@ =~= self@.remove(*key));
                None
            },
        }
    }

    /// Stores the value under the key, in place of any other.
    pub fn insert(&mut self, key: K, value: V)
        ensures
            final(self)@ == old(self)@.insert(key, value@),
    {
        let _ = self.remove(&key);
        let ghost before = *self;
        proof {
            use_type_invariant(&*self);
            assert forall|j: int| 0 <= j < before.entries@.len() implies (
            #[trigger] before.entries@[j]).0 != key by {
                before.lemma_at(j);
            }
        }
        let mut entries: Vec<(K, V)> = Vec::new();
        std::mem::swap(&mut entries, &mut self.entries);
        entries.push((key, value));
        self.entries = entries;
        proof {
            self.lemma_at(before.entries@.len() as int);
            let inserted = before@.insert(key, value@);
            assert forall|k: K| #[trigger] self@.dom().contains(k) implies
                inserted.dom().contains(k) && self@[k] == inserted[k] by {
                let j = choose|j: int| self.holds_at(k, j);
                self.lemma_at(j);
                if j < before.entries@.len() {
                    assert(self.entries@[j] == before.entries@[j]);
                    before.lemma_at(j);
                }
            }
            assert forall|k: K| #[trigger] inserted.dom().contains(k) implies
                self@.dom().contains(k) by {
                if k != key {
                    let j = choose|j: int| before.holds_at(k, j);
                    assert(self.holds_at(k, j));
                }
            }
            assert(self@.dom() =~= inserted.dom());
            assert(self@ =~= before@.insert(key, value@));
            assert(before@.insert(key, value@) =~= old(self)@.insert(key, value@));
        }
    }
}

} // verus!
