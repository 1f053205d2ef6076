use vstd::prelude::*;
use std::collections::HashMap;
use crate::types::TypedFilter;

verus! {

broadcast use vstd::std_specs::hash::group_hash_axioms;

/// The installed filters, keyed by an id that is never handed out twice.
#[derive(Debug)]
pub struct Filters {
    state: HashMap<u64, TypedFilter>,
    next_id: u64,
}

impl View for Filters {
    type V = Map<u64, TypedFilter>;

    closed spec fn view(&self) -> Map<u64, TypedFilter> {
        self.state@
    }
}

impl Filters {
    /// The id that the next install receives; every installed id is below it.
    pub closed spec fn next_id(&self) -> u64 {
        self.next_id
    }

    pub closed spec fn wf(&self) -> bool {
        forall|k: u64| #[trigger] self.state@.contains_key(k) ==> k < self.next_id
    }

    pub fn new() -> (r: Filters)
        ensures
            r.wf(),
            r@ == Map::<u64, TypedFilter>::empty(),
            r.next_id() == 0,
    {
        Filters { state: HashMap::new(), next_id: 0 }
    }

    /// There is an id left for one more filter.
    pub fn can_add(&self) -> (r: bool)
        ensures
            r == (self.next_id() < u64::MAX),
    {
        self.next_id < u64::MAX
    }

    /// Installs a filter under the next id and returns that id.
    pub fn add(&mut self, filter: TypedFilter) -> (id: u64)
        requires
            old(self).wf(),
            old(self).next_id() < u64::MAX,
        ensures
            final(self).wf(),
            id == old(self).next_id(),
            !old(self)@.contains_key(id),
            final(self)@ == old(self)@.insert(id, filter),
            final(self).next_id() == old(self).next_id() + 1,
    {
        let id = self.next_id;
        self.state.insert(id, filter);
        self.next_id = id + 1;
        id
    }

    /// The filter installed under `id`, if any.
    pub fn get(&self, id: u64) -> (r: Option<&TypedFilter>)
        ensures
            r is Some <==> self@.contains_key(id),
            r matches Some(f) ==> *f == self@[id],
    {
        self.state.get(&id)
    }

    /// Replaces the filter under `id`; does nothing if no filter is installed there.
    pub fn update(&mut self, id: u64, filter: TypedFilter)
        requires
            old(self).wf(),
        ensures
            final(self).wf(),
            final(self).next_id() == old(self).next_id(),
            final(self)@ == if old(self)@.contains_key(id) {
                old(self)@.insert(id, filter)
            } else {
                old(self)@
            },
    {
        if self.state.contains_key(&id) {
            self.state.insert(id, filter);
        }
    }

    /// Puts a filter under `id`, whether or not one is installed there.
    pub fn update_or_insert(&mut self, id: u64, filter: TypedFilter)
        requires
            old(self).wf(),
            id < old(self).next_id(),
        ensures
            final(self).wf(),
            final(self).next_id() == old(self).next_id(),
            final(self)@ == old(self)@.insert(id, filter),
    {
        self.state.insert(id, filter);
    }

    /// Removes the filter under `id`; true iff one was installed there.
    pub fn remove(&mut self, id: u64) -> (r: bool)
        requires
            old(self).wf(),
        ensures
            final(self).wf(),
            final(self).next_id() == old(self).next_id(),
            r == old(self)@.contains_key(id),
            final(self)@ == old(self)@.remove(id),
    {
        self.take(id).is_some()
    }

    /// Removes the filter under `id` and hands it over.
    pub fn take(&mut self, id: u64) -> (r: Option<TypedFilter>)
        requires
            old(self).wf(),
        ensures
            final(self).wf(),
            final(self).next_id() == old(self).next_id(),
            r is Some <==> old(self)@.contains_key(id),
            r is Some ==> id < old(self).next_id(),
            r matches Some(f) ==> f == old(self)@[id],
            final(self)@ == old(self)@.remove(id),
    {
        self.state.remove(&id)
    }
}

} // verus!
