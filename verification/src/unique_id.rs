//! Tensor identities.
//!
//! Every tensor carries an identifier used solely as a gradient-store lookup
//! key. Identifiers are handed out by an [`IdSource`], which never repeats a
//! value, so two tensors drawn from the same source can never collide in a
//! store.

use vstd::prelude::*;

verus! {

/// A source of unique tensor identities: a counter that only moves forward.
pub struct IdSource {
    next: u64,
}

impl IdSource {
    /// How many identities this source has handed out so far; every id it
    /// ever produced is strictly below this bound.
    pub closed spec fn next_id(self) -> u64 {
        self.next
    }

    pub fn new() -> (r: IdSource)
        ensures
            r.next_id() == 0,
    {
        IdSource { next: 0 }
    }

    /// How many identities have been handed out so far.
    pub fn issued(&self) -> (r: u64)
        ensures
            r == self.next_id(),
    {
        self.next
    }

    /// Hands out the next identity. Each call returns a value no earlier or
    /// later call can return.
    pub fn fresh(&mut self) -> (id: u64)
        requires
            old(self).next_id() < u64::MAX,
        ensures
            id == old(self).next_id(),
            final(self).next_id() == old(self).next_id() + 1,
    {
        let id = self.next;
        self.next = self.next + 1;
        id
    }
}

} // verus!
