//! The kitty store: the record of every kitty by its identifier.

use vstd::prelude::*;
use crate::types::{Kitty, H256};

verus! {

/// A finite map from identifiers to records. No identifier is held twice.
pub struct KittyStore {
    ids: Vec<H256>,
    records: Vec<Kitty>,
}

impl View for KittyStore {
    type V = Map<H256, Kitty>;

    closed spec fn view(&self) -> Map<H256, Kitty> {
        Map::new(
            |id: H256| self.ids@.contains(id),
            |id: H256| self.records@[self.ids@.index_of(id)],
        )
    }
}

impl KittyStore {
    /// The store keeps one record per identifier.
    pub closed spec fn inv(&self) -> bool {
        &&& self.ids.len() == self.records.len()
        &&& self.ids@.no_duplicates()
    }

    /// The empty store.
    pub fn new() -> (store: KittyStore)
        ensures
            store.inv(),
            store@ == Map::<H256, Kitty>::empty(),
    {
        let store = KittyStore { ids: Vec::new(), records: Vec::new() };
        assert(store@ =~= Map::<H256, Kitty>::empty());
        store
    }

    /// Where `id` is held, if it is held.
    fn slot(&self, id: &H256) -> (r: Option<usize>)
        requires
            self.inv(),
        ensures
            match r {
                Some(i) => i < self.ids.len() && self.ids@[i as int] == *id && self.ids@.index_of(
                    *id,
                ) == i,
                None => !self.ids@.contains(*id),
            },
    {
        let mut i: usize = 0;
        while i < self.ids.len()
            invariant
                i <= self.ids.len(),
                self.ids@.no_duplicates(),
                forall|j: int| 0 <= j < i ==> self.ids@[j] != *id,
            decreases self.ids.len() - i,
        {
            if self.ids[i].same(id) {
                assert(self.ids@[i as int] == *id);
                assert(self.ids@.contains(*id));
                return Some(i);
            }
            i += 1;
        }
        None
    }

    /// The record kept under `id`.
    pub fn get(&self, id: &H256) -> (r: Option<Kitty>)
        requires
            self.inv(),
        ensures
            r == (if self@.contains_key(*id) {
                Some(self@[*id])
            } else {
                None
            }),
    {
        match self.slot(id) {
            Some(i) => Some(self.records[i]),
            None => None,
        }
    }

    /// Keeps `kitty` under `id`, in place of any record kept there before.
    pub fn insert(&mut self, id: H256, kitty: Kitty)
        requires
            old(self).inv(),
        ensures
            final(self).inv(),
            final(self)@ == old(self)@.insert(id, kitty),
    {
        match self.slot(&id) {
            Some(i) => {
                self.records[i] = kitty;
                assert(self@ =~= old(self)@.insert(id, kitty));
            },
            None => {
                self.ids.push(id);
                self.records.push(kitty);
                assert forall|key: H256| #[trigger]
                    self.ids@.contains(key) && key != id implies old(self).ids@.contains(key)
                    && self.ids@.index_of(key) == old(self).ids@.index_of(key) by {
                    let p = self.ids@.index_of(key);
                    assert(old(self).ids@[p] == key);
                }
                assert forall|key: H256| old(self).ids@.contains(key) implies #[trigger]
                    self.ids@.contains(key) by {
                    let p = old(self).ids@.index_of(key);
                    assert(self.ids@[p] == key);
                }
                assert(self.ids@[self.ids@.len() - 1] == id);
                assert(self@ =~= old(self)@.insert(id, kitty));
            },
        }
    }
}

} // verus!
