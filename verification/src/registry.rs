//! A table of live handles keyed by tunnel or request identifier: the running tunnels,
//! the host-key prompts waiting on an answer, a tunnel's live forwards.
use std::collections::HashMap;
use vstd::prelude::*;

verus! {

broadcast use vstd::std_specs::hash::group_hash_axioms;

/// Handles keyed by identifier; at most one handle per identifier.
pub struct HandleTable<H> {
    handles: HashMap<u128, H>,
}

impl<H> View for HandleTable<H> {
    type V = Map<u128, H>;

    closed spec fn view(&self) -> Map<u128, H> {
        self.handles@
    }
}

impl<H> HandleTable<H> {
    /// An empty table.
    pub fn new() -> (table: Self)
        ensures
            table@ == Map::<u128, H>::empty(),
    {
        HandleTable { handles: HashMap::new() }
    }

    /// Registers `handle` under `id`, in place of any handle registered under it before.
    pub fn insert(&mut self, id: u128, handle: H)
        ensures
            final(self)@ == old(self)@.insert(id, handle),
    {
        self.handles.insert(id, handle);
    }

    /// Takes the handle registered under `id` out of the table, if there is one.
    pub fn remove(&mut self, id: u128) -> (handle: Option<H>)
        ensures
            final(self)@ == old(self)@.remove(id),
            match handle {
                Some(h) => old(self)@.contains_key(id) && h == old(self)@[id],
                None => !old(self)@.contains_key(id),
            },
    {
        self.handles.remove(&id)
    }

    /// Whether a handle is registered under `id`.
    pub fn contains(&self, id: u128) -> (present: bool)
        ensures
            present == self@.contains_key(id),
    {
        self.handles.contains_key(&id)
    }

    /// The handle registered under `id`, if any.
    pub fn get(&self, id: u128) -> (handle: Option<&H>)
        ensures
            match handle {
                Some(h) => self@.contains_key(id) && *h == self@[id],
                None => !self@.contains_key(id),
            },
    {
        self.handles.get(&id)
    }
}

/// A tunnel just started is running, one just stopped is not, and starting or stopping
/// one identifier leaves every other as it was (the same holds of host-key prompts).
pub proof fn lemma_start_then_stop<H>(table: Map<u128, H>, id: u128, handle: H, other: u128)
    requires
        other != id,
    ensures
        table.insert(id, handle).contains_key(id),
        table.insert(id, handle)[id] == handle,
        !table.remove(id).contains_key(id),
        table.insert(id, handle).contains_key(other) == table.contains_key(other),
        table.remove(id).contains_key(other) == table.contains_key(other),
{
}

} // verus!
