//! A map from string keys to values, kept as a dense vector of slots with a
//! hash table that finds the slot of a key.
//!
//! The slots give the map an order that can be walked by position; removing a
//! slot moves the last slot into its place.

use crate::index::{
    positions, table_clear, table_contains, table_get, table_insert, table_new, table_remove,
};
use dashmap::DashMap;
use vstd::prelude::*;

verus! {

/// One key with its value.
struct Slot<V> {
    key: String,
    value: V,
}

/// A map from string keys to values whose entries can also be reached by
/// position.
pub struct KeyedStore<V> {
    table: DashMap<String, usize>,
    slots: Vec<Slot<V>>,
}

impl<V> KeyedStore<V> {
    /// The keys, in slot order.
    pub closed spec fn keys(&self) -> Seq<Seq<char>> {
        Seq::new(self.slots@.len(), |i: int| self.slots@[i].key@)
    }

    /// The values, in slot order.
    pub closed spec fn values(&self) -> Seq<V> {
        Seq::new(self.slots@.len(), |i: int| self.slots@[i].value)
    }

    /// The slot that the table gives for a key.
    pub closed spec fn position_of(&self, key: Seq<char>) -> Option<int> {
        if positions(self.table).contains_key(key) {
            Some(positions(self.table)[key] as int)
        } else {
            None
        }
    }

    /// The table and the slots agree: the table sends each slot's key to that
    /// slot, and sends no key anywhere else.
    pub open spec fn well_formed(&self) -> bool {
        &&& self.keys().len() == self.values().len()
        &&& forall|i: int|
            0 <= i < self.keys().len() ==> self.position_of(#[trigger] self.keys()[i]) == Some(i)
        &&& forall|k: Seq<char>|
            #![trigger self.position_of(k)]
            self.position_of(k) is Some ==> {
                &&& 0 <= self.position_of(k).unwrap() < self.keys().len()
                &&& self.keys()[self.position_of(k).unwrap()] == k
            }
    }

    /// The store as a map.
    pub open spec fn view(&self) -> Map<Seq<char>, V> {
        Map::new(
            |k: Seq<char>| self.position_of(k) is Some,
            |k: Seq<char>| self.values()[self.position_of(k).unwrap()],
        )
    }

    /// A store with no entry.
    pub fn new() -> (store: Self)
        ensures
            store.well_formed(),
            store.keys().len() == 0,
            store@ == Map::<Seq<char>, V>::empty(),
    {
        let store = KeyedStore { table: table_new(), slots: Vec::new() };
        assert(store@ =~= Map::<Seq<char>, V>::empty());
        store
    }

    /// The number of entries.
    pub fn len(&self) -> (n: usize)
        ensures
            n == self.keys().len(),
    {
        self.slots.len()
    }

    /// The slot that holds `key`, if the store holds it.
    pub fn position(&self, key: &str) -> (found: Option<usize>)
        requires
            self.well_formed(),
        ensures
            match found {
                Some(i) => self.position_of(key@) == Some(i as int) && i < self.keys().len(),
                None => self.position_of(key@) is None,
            },
    {
        table_get(&self.table, key)
    }

    /// Whether the store holds `key`.
    pub fn contains_key(&self, key: &str) -> (held: bool)
        ensures
            held == self@.contains_key(key@),
    {
        table_contains(&self.table, key)
    }

    /// The key in slot `i`.
    pub fn key_at(&self, i: usize) -> (key: &str)
        requires
            i < self.keys().len(),
        ensures
            key@ == self.keys()[i as int],
    {
        self.slots[i].key.as_str()
    }

    /// The value in slot `i`.
    pub fn value_at(&self, i: usize) -> (value: &V)
        requires
            i < self.keys().len(),
        ensures
            *value == self.values()[i as int],
    {
        &self.slots[i].value
    }

    /// The value in slot `i`, to be changed in place. The keys stay as they
    /// are.
    pub fn value_at_mut(&mut self, i: usize) -> (value: &mut V)
        requires
            i < old(self).keys().len(),
        ensures
            *value == old(self).values()[i as int],
            final(self).keys() =~= old(self).keys(),
            final(self).values() =~= old(self).values().update(i as int, *final(value)),
            forall|k: Seq<char>| final(self).position_of(k) == old(self).position_of(k),
    {
        &mut self.slots[i].value
    }

    /// The value bound to `key`, if the store holds the key.
    pub fn get(&self, key: &str) -> (found: Option<&V>)
        requires
            self.well_formed(),
        ensures
            match found {
                Some(value) => self@.contains_key(key@) && *value == self@[key@],
                None => !self@.contains_key(key@),
            },
    {
        match table_get(&self.table, key) {
            Some(i) => {
                assert(self.position_of(key@) == Some(i as int));
                Some(&self.slots[i].value)
            },
            None => {
                assert(self.position_of(key@) is None);
                None
            },
        }
    }

    /// Binds `key` to `value`. A key that the store already holds keeps its
    /// slot; a new key takes a new last slot. The result is the value that
    /// `key` was bound to before.
    pub fn insert(&mut self, key: &str, value: V) -> (previous: Option<V>)
        requires
            old(self).well_formed(),
        ensures
            final(self).well_formed(),
            final(self)@ == old(self)@.insert(key@, value),
            match old(self).position_of(key@) {
                Some(i) => {
                    &&& previous == Some(old(self).values()[i])
                    &&& final(self).keys() == old(self).keys()
                    &&& final(self).values() == old(self).values().update(i, value)
                },
                None => {
                    &&& previous is None
                    &&& final(self).keys() == old(self).keys().push(key@)
                    &&& final(self).values() == old(self).values().push(value)
                },
            },
    {
        match table_get(&self.table, key) {
            Some(i) => {
                assert(self.position_of(key@) == Some(i as int));
                let mut incoming = value;
                core::mem::swap(&mut self.slots[i].value, &mut incoming);
                assert(forall|k: Seq<char>| self.position_of(k) == old(self).position_of(k));
                assert(self.keys() =~= old(self).keys());
                assert(self.values() =~= old(self).values().update(i as int, value));
                assert(self@ =~= old(self)@.insert(key@, value));
                Some(incoming)
            },
            None => {
                assert(self.position_of(key@) is None);
                let n = self.slots.len();
                let _ = table_insert(&mut self.table, key.to_owned(), n);
                self.slots.push(Slot { key: key.to_owned(), value });
                assert(forall|k: Seq<char>|
                    self.position_of(k) == (if k == key@ {
                        Some(n as int)
                    } else {
                        old(self).position_of(k)
                    }));
                assert(self.keys() =~= old(self).keys().push(key@));
                assert(self.values() =~= old(self).values().push(value));
                assert(self@ =~= old(self)@.insert(key@, value));
                None
            },
        }
    }

    /// Takes slot `i` out of the store. The last slot moves into its place.
    pub fn remove_at(&mut self, i: usize) -> (removed: (String, V))
        requires
            old(self).well_formed(),
            i < old(self).keys().len(),
        ensures
            final(self).well_formed(),
            removed.0@ == old(self).keys()[i as int],
            removed.1 == old(self).values()[i as int],
            final(self).keys() == old(self).keys().update(i as int, old(self).keys().last()).drop_last(),
            final(self).values() == old(self).values().update(
                i as int,
                old(self).values().last(),
            ).drop_last(),
            final(self)@ == old(self)@.remove(old(self).keys()[i as int]),
    {
        let last = self.slots.len() - 1;
        let ghost gone = self.keys()[i as int];
        let ghost shifted = self.keys()[last as int];
        assert(self.position_of(gone) == Some(i as int));
        assert(self.position_of(shifted) == Some(last as int));
        let slot = self.slots.swap_remove(i);
        let _ = table_remove(&mut self.table, slot.key.as_str());
        if i < last {
            let moved = self.slots[i].key.clone();
            let _ = table_insert(&mut self.table, moved, i);
        }
        assert(forall|k: Seq<char>|
            self.position_of(k) == (if k == gone {
                None
            } else if k == shifted {
                Some(i as int)
            } else {
                old(self).position_of(k)
            }));
        assert(self.keys() =~= old(self).keys().update(i as int, old(self).keys().last()).drop_last());
        assert(self.values() =~= old(self).values().update(
            i as int,
            old(self).values().last(),
        ).drop_last());
        assert(self@ =~= old(self)@.remove(old(self).keys()[i as int]));
        (slot.key, slot.value)
    }

    /// Takes `key` out of the store and hands back its value, if the store
    /// holds the key.
    pub fn remove(&mut self, key: &str) -> (previous: Option<V>)
        requires
            old(self).well_formed(),
        ensures
            final(self).well_formed(),
            final(self)@ == old(self)@.remove(key@),
            previous == (if old(self)@.contains_key(key@) {
                Some(old(self)@[key@])
            } else {
                None
            }),
            final(self).keys().len() == old(self).keys().len() - (if old(self)@.contains_key(key@) {
                1int
            } else {
                0int
            }),
    {
        match table_get(&self.table, key) {
            Some(i) => {
                assert(self.position_of(key@) == Some(i as int));
                let removed = self.remove_at(i);
                Some(removed.1)
            },
            None => {
                assert(self.position_of(key@) is None);
                assert(self@ =~= old(self)@.remove(key@));
                None
            },
        }
    }

    /// Takes every entry out of the store.
    pub fn clear(&mut self)
        ensures
            final(self).well_formed(),
            final(self).keys().len() == 0,
            final(self)@ == Map::<Seq<char>, V>::empty(),
    {
        table_clear(&mut self.table);
        self.slots.clear();
        assert(self@ =~= Map::<Seq<char>, V>::empty());
    }

    /// In a well-formed store no key has two slots, the map's keys are the
    /// slots' keys, and the map has as many entries as there are slots.
    pub proof fn lemma_slots_are_the_map(&self)
        requires
            self.well_formed(),
        ensures
            self.keys().no_duplicates(),
            self@.dom() == self.keys().to_set(),
            self@.dom().finite(),
            self@.len() == self.keys().len(),
            forall|i: int|
                0 <= i < self.keys().len() ==> self@.contains_key(#[trigger] self.keys()[i])
                    && self@[self.keys()[i]] == self.values()[i],
    {
        let keys = self.keys();
        assert forall|i: int, j: int| 0 <= i < keys.len() && 0 <= j < keys.len() && i != j implies keys[i]
            != keys[j] by {
            assert(self.position_of(keys[i]) == Some(i));
            assert(self.position_of(keys[j]) == Some(j));
        }
        assert forall|k: Seq<char>| self@.dom().contains(k) <==> keys.to_set().contains(k) by {
            if self@.dom().contains(k) {
                assert(keys[self.position_of(k).unwrap()] == k);
            }
            if keys.to_set().contains(k) {
                let i = choose|i: int| 0 <= i < keys.len() && keys[i] == k;
                assert(self.position_of(keys[i]) == Some(i));
            }
        }
        assert(self@.dom() =~= keys.to_set());
        keys.unique_seq_to_set();
        vstd::seq_lib::seq_to_set_is_finite(keys);
    }
}

} // verus!
