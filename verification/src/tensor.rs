//! Traced tensors: a fixed-shape value paired with its tape state.
//!
//! A tensor is either *untracked* — a pure value, used for constants and for
//! right-hand operands that must not accumulate gradients — or *traced*,
//! owning the tape that records every differentiable operation it flows
//! through. A tensor can be split into its raw value and its tape and later
//! reunited with a (possibly different) tape; binary operations use the
//! split to detach an operand before snapshotting its value into a backward
//! operation.

use vstd::prelude::*;

use crate::gradients::Gradients;
use crate::scalar::{alloc_ones, alloc_zeros, copy_buf, one_seq, Scalar};
use crate::tape::{replay, OpV, Tape};
use crate::unique_id::IdSource;

verus! {

/// Whether a tensor participates in gradient tracking.
pub enum TapeState<E: Scalar> {
    /// A pure value; operations on it record nothing.
    Untracked,
    /// The tensor owns the tape that records its history.
    Traced(Tape<E>),
}

/// A fixed-shape tensor of abstract elements, in row-major storage, with a
/// process-unique identity and a tape state. A vector is a tensor with one
/// row; a scalar has one row and one column. The shape is fixed for the
/// tensor's lifetime.
pub struct Tensor<E: Scalar> {
    pub id: u64,
    pub rows: usize,
    pub cols: usize,
    pub data: Vec<E>,
    pub tape: TapeState<E>,
}

impl<E: Scalar> Tensor<E> {
    /// The storage holds exactly one element per logical cell, and an owned
    /// tape is well formed.
    pub open spec fn wf(self) -> bool {
        &&& self.data@.len() == self.rows * self.cols
        &&& match self.tape {
            TapeState::Untracked => true,
            TapeState::Traced(t) => t.wf(),
        }
    }

    pub open spec fn is_traced(self) -> bool {
        self.tape is Traced
    }

    /// The operations of the owned tape; an untracked tensor carries none.
    pub open spec fn tape_ops(self) -> Seq<OpV<E>> {
        match self.tape {
            TapeState::Untracked => Seq::empty(),
            TapeState::Traced(t) => t.ops(),
        }
    }

    /// The contents of the owned tape's gradient store.
    pub open spec fn tape_grads(self) -> Map<u64, Seq<E>> {
        match self.tape {
            TapeState::Untracked => Map::empty(),
            TapeState::Traced(t) => t.grads(),
        }
    }

    /// An untracked tensor over the given storage, with a fresh identity.
    pub fn new(rows: usize, cols: usize, data: Vec<E>, ids: &mut IdSource) -> (r: Tensor<E>)
        requires
            data@.len() == rows * cols,
            old(ids).next_id() < u64::MAX,
        ensures
            r.id == old(ids).next_id(),
            final(ids).next_id() == old(ids).next_id() + 1,
            r.rows == rows,
            r.cols == cols,
            r.data@ == data@,
            !r.is_traced(),
            r.wf(),
    {
        Tensor { id: ids.fresh(), rows, cols, data, tape: TapeState::Untracked }
    }

    /// An untracked row vector over the given storage, with a fresh
    /// identity.
    pub fn vector(data: Vec<E>, ids: &mut IdSource) -> (r: Tensor<E>)
        requires
            old(ids).next_id() < u64::MAX,
        ensures
            r.id == old(ids).next_id(),
            final(ids).next_id() == old(ids).next_id() + 1,
            r.rows == 1,
            r.cols == data@.len(),
            r.data@ == data@,
            !r.is_traced(),
            r.wf(),
    {
        let cols = data.len();
        Tensor { id: ids.fresh(), rows: 1, cols, data, tape: TapeState::Untracked }
    }

    /// An untracked zero-filled tensor with a fresh identity.
    pub fn zeros(rows: usize, cols: usize, ids: &mut IdSource) -> (r: Tensor<E>)
        requires
            rows * cols <= usize::MAX,
            old(ids).next_id() < u64::MAX,
        ensures
            r.id == old(ids).next_id(),
            final(ids).next_id() == old(ids).next_id() + 1,
            r.rows == rows,
            r.cols == cols,
            r.data@ == crate::scalar::zero_seq::<E>((rows * cols) as nat),
            !r.is_traced(),
            r.wf(),
    {
        let data = alloc_zeros::<E>(rows * cols);
        Tensor { id: ids.fresh(), rows, cols, data, tape: TapeState::Untracked }
    }

    /// An untracked one-filled tensor with a fresh identity.
    pub fn ones(rows: usize, cols: usize, ids: &mut IdSource) -> (r: Tensor<E>)
        requires
            rows * cols <= usize::MAX,
            old(ids).next_id() < u64::MAX,
        ensures
            r.id == old(ids).next_id(),
            final(ids).next_id() == old(ids).next_id() + 1,
            r.rows == rows,
            r.cols == cols,
            r.data@ == one_seq::<E>((rows * cols) as nat),
            !r.is_traced(),
            r.wf(),
    {
        let data = alloc_ones::<E>(rows * cols);
        Tensor { id: ids.fresh(), rows, cols, data, tape: TapeState::Untracked }
    }

    /// A tracked copy of this tensor: same identity, same value, owning a
    /// fresh, empty tape. The starting point of a differentiable
    /// computation.
    pub fn trace(&self) -> (r: Tensor<E>)
        ensures
            r.id == self.id,
            r.rows == self.rows,
            r.cols == self.cols,
            r.data@ == self.data@,
            r.is_traced(),
            r.tape_ops() == Seq::<OpV<E>>::empty(),
            r.tape_grads() == Map::<u64, Seq<E>>::empty(),
            self.wf() ==> r.wf(),
    {
        Tensor {
            id: self.id,
            rows: self.rows,
            cols: self.cols,
            data: copy_buf(&self.data),
            tape: TapeState::Traced(Tape::new()),
        }
    }

    /// Detaches the tensor from tracking: the raw value (untracked, same
    /// identity) and its tape. An untracked tensor yields a fresh, empty
    /// tape — a no-op tape is equivalent to no tape.
    pub fn split_tape(self) -> (r: (Tensor<E>, Tape<E>))
        ensures
            r.0.id == self.id,
            r.0.rows == self.rows,
            r.0.cols == self.cols,
            r.0.data@ == self.data@,
            !r.0.is_traced(),
            r.1.ops() == self.tape_ops(),
            r.1.grads() == self.tape_grads(),
            self.wf() ==> r.0.wf() && r.1.wf(),
    {
        let Tensor { id, rows, cols, data, tape } = self;
        let t = match tape {
            TapeState::Traced(t) => t,
            TapeState::Untracked => Tape::new(),
        };
        (Tensor { id, rows, cols, data, tape: TapeState::Untracked }, t)
    }

    /// Reunites a raw value with a tape, making the result tracked.
    pub fn put_tape(self, t: Tape<E>) -> (r: Tensor<E>)
        ensures
            r.id == self.id,
            r.rows == self.rows,
            r.cols == self.cols,
            r.data@ == self.data@,
            r.is_traced(),
            r.tape_ops() == t.ops(),
            r.tape_grads() == t.grads(),
            self.data@.len() == self.rows * self.cols && t.wf() ==> r.wf(),
    {
        let Tensor { id, rows, cols, data, tape: _ } = self;
        Tensor { id, rows, cols, data, tape: TapeState::Traced(t) }
    }

    /// Whether this tensor currently owns a tape.
    pub fn traced(&self) -> (r: bool)
        ensures
            r == self.is_traced(),
    {
        match &self.tape {
            TapeState::Traced(_) => true,
            TapeState::Untracked => false,
        }
    }

    /// The raw storage, row-major.
    pub fn data(&self) -> (r: &Vec<E>)
        ensures
            r@ == self.data@,
    {
        &self.data
    }
}

/// Runs the backward pass from a tracked scalar loss: seeds the loss's own
/// gradient with one, replays the recorded operations in reverse order, and
/// yields the populated gradient store. The tensor's value is discarded.
pub fn backward<E: Scalar>(loss: Tensor<E>) -> (r: Gradients<E>)
    requires
        loss.wf(),
        loss.is_traced(),
        loss.data@.len() == 1,
    ensures
        r@ == replay(loss.tape_grads().insert(loss.id, one_seq::<E>(1)), loss.tape_ops()),
{
    let id = loss.id;
    let (_value, tape) = loss.split_tape();
    tape.backward(id, 1)
}

} // verus!
