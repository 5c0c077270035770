//! The gradient store: a mapping from tensor identity to an owned gradient
//! buffer.
//!
//! A lookup for an identity not yet present allocates a zero-filled buffer as
//! a side effect, so exactly one buffer exists per identity at any time.
//! Removal hands the buffer to the caller, and a dual fetch resolves two
//! distinct identities at once — one to write, one to read — which is how a
//! backward operation reads its output's gradient while accumulating into an
//! input's.

use std::collections::HashMap;
use vstd::prelude::*;

use crate::scalar::{alloc_zeros, copy_buf, zero_seq, Scalar};

verus! {

broadcast use vstd::std_specs::hash::group_hash_axioms;

/// The buffer a fetch of `id` yields from store contents `m`: the stored
/// entry when one of the expected length is present, the all-zero buffer of
/// that length otherwise. The length test is a defensive guard; in a store
/// used as documented every entry already has the length of the tensor it
/// shadows.
pub open spec fn entry_or_zero<E: Scalar>(m: Map<u64, Seq<E>>, id: u64, n: nat) -> Seq<E> {
    if m.contains_key(id) && m[id].len() == n {
        m[id]
    } else {
        zero_seq(n)
    }
}

/// An identity-keyed store of gradient buffers.
pub struct Gradients<E: Scalar> {
    map: HashMap<u64, Vec<E>>,
}

impl<E: Scalar> View for Gradients<E> {
    type V = Map<u64, Seq<E>>;

    closed spec fn view(&self) -> Map<u64, Seq<E>> {
        self.map@.map_values(|v: Vec<E>| v@)
    }
}

impl<E: Scalar> Gradients<E> {
    pub fn new() -> (r: Gradients<E>)
        ensures
            r@ == Map::<u64, Seq<E>>::empty(),
    {
        let r = Gradients { map: HashMap::new() };
        proof {
            assert(r@ =~= Map::<u64, Seq<E>>::empty());
        }
        r
    }

    /// The buffer recorded for `id`, allocating and zero-filling one first if
    /// none is present. The store keeps the returned contents under `id`.
    pub fn get_or_zero(&mut self, id: u64, n: usize) -> (r: Vec<E>)
        ensures
            r@ == entry_or_zero(old(self)@, id, n as nat),
            final(self)@ == old(self)@.insert(id, r@),
    {
        let present = match self.map.get(&id) {
            Some(v) => v.len() == n,
            None => false,
        };
        if present {
            match self.map.get(&id) {
                Some(v) => {
                    let r = copy_buf(v);
                    proof {
                        assert(old(self)@.insert(id, r@) =~= old(self)@);
                    }
                    r
                },
                None => {
                    proof {
                        assert(false);
                    }
                    alloc_zeros(n)
                },
            }
        } else {
            let z = alloc_zeros(n);
            let stored = copy_buf(&z);
            self.map.insert(id, stored);
            proof {
                assert(self@ =~= old(self)@.insert(id, z@));
            }
            z
        }
    }

    /// Detaches the buffer for `id` and hands it to the caller; a second
    /// remove of the same identity yields `None`.
    pub fn remove(&mut self, id: u64) -> (r: Option<Vec<E>>)
        ensures
            final(self)@ == old(self)@.remove(id),
            match r {
                Some(v) => old(self)@.contains_key(id) && v@ == old(self)@[id],
                None => !old(self)@.contains_key(id),
            },
    {
        let r = self.map.remove(&id);
        proof {
            assert(self@ =~= old(self)@.remove(id));
        }
        r
    }

    /// Records `buf` as the gradient buffer for `id`, replacing any entry.
    pub fn insert(&mut self, id: u64, buf: Vec<E>)
        ensures
            final(self)@ == old(self)@.insert(id, buf@),
    {
        self.map.insert(id, buf);
        proof {
            assert(self@ =~= old(self)@.insert(id, buf@));
        }
    }

    /// Checks the buffer for `id` out of the store for writing, allocating
    /// a zero-filled one on a miss; the caller hands it back with
    /// [`Gradients::insert`] when done.
    pub fn take_or_zero(&mut self, id: u64, n: usize) -> (r: Vec<E>)
        ensures
            r@ == entry_or_zero(old(self)@, id, n as nat),
            final(self)@ == old(self)@.remove(id),
    {
        let removed = self.remove(id);
        match removed {
            Some(v) => {
                if v.len() == n {
                    v
                } else {
                    alloc_zeros(n)
                }
            },
            None => alloc_zeros(n),
        }
    }

    /// The dual fetch: resolves two distinct identities at once, allocating
    /// on a miss as usual. The first buffer is checked out of the store for
    /// writing — the caller puts it back with [`Gradients::insert`] — while
    /// the second is a read-only copy that stays recorded. Requesting the
    /// same identity twice is excluded by contract, which is what keeps the
    /// single-writer discipline.
    pub fn mut_and_ref(&mut self, id_mut: u64, n_mut: usize, id_ref: u64, n_ref: usize) -> (r: (
        Vec<E>,
        Vec<E>,
    ))
        requires
            id_mut != id_ref,
        ensures
            r.0@ == entry_or_zero(old(self)@, id_mut, n_mut as nat),
            r.1@ == entry_or_zero(old(self)@, id_ref, n_ref as nat),
            final(self)@ == old(self)@.remove(id_mut).insert(id_ref, r.1@),
    {
        let removed = self.map.remove(&id_mut);
        proof {
            assert(self@ =~= old(self)@.remove(id_mut));
        }
        let a = match removed {
            Some(v) => {
                if v.len() == n_mut {
                    v
                } else {
                    alloc_zeros(n_mut)
                }
            },
            None => alloc_zeros(n_mut),
        };
        let b = self.get_or_zero(id_ref, n_ref);
        (a, b)
    }

    /// A read-only look at the buffer for `id`, with no allocation on a
    /// miss; the way a finished backward pass is inspected.
    pub fn ref_gradient(&self, id: u64) -> (r: Option<&Vec<E>>)
        ensures
            match r {
                Some(v) => self@.contains_key(id) && v@ == self@[id],
                None => !self@.contains_key(id),
            },
    {
        self.map.get(&id)
    }
}

/// Law: lazy allocation is idempotent. A buffer never seen before reads as
/// all zeros; re-reading what that first fetch recorded still reads as all
/// zeros; and once an entry is removed, a fresh fetch of the same identity
/// reads as all zeros again — no stale data survives a removal.
pub proof fn lemma_fresh_gradient_reads_zero<E: Scalar>(m: Map<u64, Seq<E>>, id: u64, n: nat)
    requires
        !m.contains_key(id),
    ensures
        entry_or_zero(m, id, n) == zero_seq::<E>(n),
        entry_or_zero(m.insert(id, entry_or_zero(m, id, n)), id, n) == zero_seq::<E>(n),
        forall|m2: Map<u64, Seq<E>>|
            entry_or_zero(#[trigger] m2.remove(id), id, n) == zero_seq::<E>(n),
{
    assert forall|m2: Map<u64, Seq<E>>|
        entry_or_zero(#[trigger] m2.remove(id), id, n) == zero_seq::<E>(n) by {
        assert(!m2.remove(id).contains_key(id));
    }
}

} // verus!
