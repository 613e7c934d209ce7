//! The table of open tunnelled connections, keyed by their one-byte id.

use vstd::prelude::*;
use std::collections::HashMap;

verus! {

broadcast use vstd::std_specs::hash::group_hash_axioms;

/// Whether every one of the 256 connection ids is in use in `m`.
pub open spec fn all_ids_used<W>(m: Map<u8, W>) -> bool {
    forall|k: u8| m.contains_key(k)
}

/// Whether `id` is the smallest id that is not in use in `m`.
pub open spec fn is_least_free_id<W>(m: Map<u8, W>, id: u8) -> bool {
    &&& !m.contains_key(id)
    &&& forall|k: u8| k < id ==> m.contains_key(k)
}

/// The id given to a new connection: the smallest free one, or `0` when all
/// are in use.
pub open spec fn chosen_id<W>(m: Map<u8, W>, id: u8) -> bool {
    if all_ids_used(m) {
        id == 0
    } else {
        is_least_free_id(m, id)
    }
}

/// A new connection never takes the id of an open one while a free id is
/// left, and the id it takes is free and the smallest such.
pub proof fn lemma_chosen_id_is_fresh<W>(m: Map<u8, W>, id: u8)
    requires
        chosen_id(m, id),
        !all_ids_used(m),
    ensures
        !m.contains_key(id),
        forall|k: u8| !m.contains_key(k) ==> id <= k,
{
}

/// Open connections, each with the value (a socket half, a task handle) that
/// the tunnel keeps for it.
pub struct ConnectionTable<W> {
    entries: HashMap<u8, W>,
}

impl<W> View for ConnectionTable<W> {
    type V = Map<u8, W>;

    closed spec fn view(&self) -> Map<u8, W> {
        self.entries@
    }
}

impl<W> ConnectionTable<W> {
    /// An empty table.
    pub fn new() -> (t: Self)
        ensures
            t@ == Map::<u8, W>::empty(),
    {
        ConnectionTable { entries: HashMap::new() }
    }

    /// Whether `id` is in use.
    pub fn contains(&self, id: u8) -> (found: bool)
        ensures
            found == self@.contains_key(id),
    {
        self.entries.contains_key(&id)
    }

    /// Records `value` under `id`, replacing what was there.
    pub fn insert(&mut self, id: u8, value: W)
        ensures
            final(self)@ == old(self)@.insert(id, value),
    {
        self.entries.insert(id, value);
    }

    /// Removes `id` and hands back what was recorded under it.
    pub fn remove(&mut self, id: u8) -> (removed: Option<W>)
        ensures
            final(self)@ == old(self)@.remove(id),
            match removed {
                Some(v) => old(self)@.contains_key(id) && v == old(self)@[id],
                None => !old(self)@.contains_key(id),
            },
    {
        self.entries.remove(&id)
    }

    /// What is recorded under `id`, if anything.
    pub fn get(&self, id: u8) -> (found: Option<&W>)
        ensures
            match found {
                Some(v) => self@.contains_key(id) && *v == self@[id],
                None => !self@.contains_key(id),
            },
    {
        self.entries.get(&id)
    }

    /// The id for a new connection: the smallest id not in use, or `0` when
    /// all 256 are taken.
    pub fn first_free_id(&self) -> (id: u8)
        ensures
            chosen_id(self@, id),
    {
        let mut key: u16 = 0;
        while key <= 255
            invariant
                key <= 256,
                forall|k: u8| k < key ==> self@.contains_key(k),
            decreases 256 - key,
        {
            let candidate: u8 = key as u8;
            if !self.entries.contains_key(&candidate) {
                return candidate;
            }
            key = key + 1;
        }
        assert(all_ids_used(self@));
        0
    }
}

} // verus!
