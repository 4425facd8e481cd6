//! Values that are known by numbers, none of which is ever given twice.
use vstd::prelude::*;
use std::collections::BTreeMap;

verus! {

/// A store that hands out a new number for each value.
pub struct Arena<T> {
    items: BTreeMap<u64, T>,
    next: u64,
}

impl<T> View for Arena<T> {
    type V = Map<u64, T>;

    closed spec fn view(&self) -> Map<u64, T> {
        self.items@
    }
}

impl<T> Arena<T> {
    /// The number that is handed out next.
    pub closed spec fn next_id(self) -> u64 {
        self.next
    }

    /// Every number in use was handed out.
    pub open spec fn wf(self) -> bool {
        forall|id: u64| #[trigger] self@.contains_key(id) ==> id < self.next_id()
    }

    pub fn new() -> (r: Arena<T>)
        ensures
            r.wf(),
            r@ == Map::<u64, T>::empty(),
            r.next_id() == 0,
    {
        Arena { items: BTreeMap::new(), next: 0 }
    }

    /// Stores a value under a new number; nothing once the numbers are used up.
    pub fn insert(&mut self, value: T) -> (r: Option<u64>)
        requires
            old(self).wf(),
        ensures
            final(self).wf(),
            match r {
                Some(id) => {
                    &&& id == old(self).next_id()
                    &&& !old(self)@.contains_key(id)
                    &&& final(self)@ == old(self)@.insert(id, value)
                    &&& final(self).next_id() == id + 1
                },
                None => old(self).next_id() == u64::MAX && final(self)@ == old(self)@
                    && final(self).next_id() == old(self).next_id(),
            },
    {
        let id: u64 = self.next;
        if id == u64::MAX {
            return None;
        }
        let _ = self.items.insert(id, value);
        self.next = id + 1;
        assert(self@ =~= old(self)@.insert(id, value));
        Some(id)
    }

    /// The number that is handed out next.
    pub fn next_number(&self) -> (r: u64)
        ensures
            r == self.next_id(),
    {
        self.next
    }

    pub fn contains(&self, id: u64) -> (r: bool)
        ensures
            r == self@.contains_key(id),
    {
        self.items.contains_key(&id)
    }

    pub fn get(&self, id: u64) -> (r: Option<&T>)
        ensures
            match r {
                Some(v) => self@.contains_key(id) && *v == self@[id],
                None => !self@.contains_key(id),
            },
    {
        self.items.get(&id)
    }

    /// Takes a value out.
    pub fn take(&mut self, id: u64) -> (r: Option<T>)
        requires
            old(self).wf(),
        ensures
            final(self).wf(),
            final(self).next_id() == old(self).next_id(),
            final(self)@ == old(self)@.remove(id),
            match r {
                Some(v) => old(self)@.contains_key(id) && v == old(self)@[id],
                None => !old(self)@.contains_key(id),
            },
    {
        let r = self.items.remove(&id);
        assert(self@ =~= old(self)@.remove(id));
        r
    }

    /// Puts a value back under a number that was handed out before.
    pub fn put(&mut self, id: u64, value: T)
        requires
            old(self).wf(),
            id < old(self).next_id(),
        ensures
            final(self).wf(),
            final(self).next_id() == old(self).next_id(),
            final(self)@ == old(self)@.insert(id, value),
    {
        let _ = self.items.insert(id, value);
        assert(self@ =~= old(self)@.insert(id, value));
    }
}

} // verus!
