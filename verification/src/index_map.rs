//! A map from small integers to values, stored as a vector of optional slots.

use vstd::prelude::*;

verus! {

/// A map whose keys index a vector of slots.
#[derive(Debug)]
pub struct IndexMap<V> {
    slots: Vec<Option<V>>,
}

impl<V> View for IndexMap<V> {
    type V = Map<int, V>;

    closed spec fn view(&self) -> Map<int, V> {
        Map::new(
            |key: int| 0 <= key < self.slots@.len() && self.slots@[key] is Some,
            |key: int| self.slots@[key]->Some_0,
        )
    }
}

impl<V> IndexMap<V> {
    /// The map without entries.
    pub fn new() -> (map: Self)
        ensures
            map@ == Map::<int, V>::empty(),
    {
        let map = IndexMap { slots: Vec::new() };
        assert(map@ =~= Map::<int, V>::empty());
        map
    }

    /// The value entered under `key`, if there is one.
    pub fn get(&self, key: usize) -> (value: Option<&V>)
        ensures
            match value {
                Some(v) => self@.contains_key(key as int) && *v == self@[key as int],
                None => !self@.contains_key(key as int),
            },
    {
        if key < self.slots.len() {
            match &self.slots[key] {
                Some(v) => Some(v),
                None => None,
            }
        } else {
            None
        }
    }

    /// The value entered under `key`, to be changed in place.
    pub fn get_mut(&mut self, key: usize) -> (value: &mut V)
        requires
            old(self)@.contains_key(key as int),
        ensures
            *value == old(self)@[key as int],
            final(self)@ == old(self)@.insert(key as int, *final(value)),
    {
        self.slots[key].as_mut().unwrap()
    }

    /// Enters `value` under `key`, in place of what was entered there before.
    pub fn insert(&mut self, key: usize, value: V)
        requires
            key < usize::MAX,
        ensures
            final(self)@ == old(self)@.insert(key as int, value),
    {
        while self.slots.len() <= key
            invariant
                self@ == old(self)@,
                key < usize::MAX,
            decreases key + 1 - self.slots.len(),
        {
            self.slots.push(None);
            assert(self@ =~= old(self)@);
        }
        self.slots.set(key, Some(value));
        assert(self@ =~= old(self)@.insert(key as int, value));
    }
}

} // verus!
