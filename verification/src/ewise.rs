//! Elementwise traced operations and the mean reduction.
//!
//! Each operation follows the same composition pattern as matrix
//! multiplication: compute the forward value, detach the traced operand from
//! its tape, record a backward operation closed over the operand snapshots
//! it needs, and attach the extended tape to the result.

use vstd::prelude::*;

use crate::scalar::Scalar;
use crate::tape::{BackwardOp, BinaryKind, OpV, UnaryKind};
use crate::tensor::{TapeState, Tensor};
use crate::unique_id::IdSource;

verus! {

/// Forward value of an elementwise binary operation over equal-length
/// buffers.
pub open spec fn bin_fwd<E: Scalar>(kind: BinaryKind, a: Seq<E>, b: Seq<E>) -> Seq<E> {
    Seq::new(
        a.len(),
        |i: int|
            match kind {
                BinaryKind::Sub => a[i].sub_s(b[i]),
                BinaryKind::Mul => a[i].mul_s(b[i]),
            },
    )
}

/// Forward value of an elementwise unary operation.
pub open spec fn un_fwd<E: Scalar>(kind: UnaryKind, a: Seq<E>) -> Seq<E> {
    Seq::new(
        a.len(),
        |i: int|
            match kind {
                UnaryKind::Abs => a[i].abs_s(),
                UnaryKind::Exp => a[i].exp_s(),
            },
    )
}

/// The first `k` elements of a buffer summed left to right from zero.
pub open spec fn sum_acc<E: Scalar>(a: Seq<E>, k: int) -> E
    decreases k,
{
    if k <= 0 {
        E::zero_s()
    } else {
        sum_acc(a, k - 1).add_s(a[k - 1])
    }
}

/// The mean of a buffer: its sum divided by its element count.
pub open spec fn mean_val<E: Scalar>(a: Seq<E>) -> E {
    sum_acc(a, a.len() as int).div_s(E::from_count_s(a.len() as usize))
}

fn bin_forward<E: Scalar>(kind: BinaryKind, a: &Vec<E>, b: &Vec<E>) -> (r: Vec<E>)
    requires
        a@.len() == b@.len(),
    ensures
        r@ == bin_fwd(kind, a@, b@),
{
    let mut r: Vec<E> = Vec::new();
    let mut i: usize = 0;
    while i < a.len()
        invariant
            a@.len() == b@.len(),
            i <= a@.len(),
            r@.len() == i,
            forall|k: int| 0 <= k < i ==> r@[k] == bin_fwd(kind, a@, b@)[k],
        decreases a@.len() - i,
    {
        let v = match kind {
            BinaryKind::Sub => a[i].minus(b[i]),
            BinaryKind::Mul => a[i].times(b[i]),
        };
        r.push(v);
        i = i + 1;
    }
    proof {
        assert(r@ =~= bin_fwd(kind, a@, b@));
    }
    r
}

fn un_forward<E: Scalar>(kind: UnaryKind, a: &Vec<E>) -> (r: Vec<E>)
    ensures
        r@ == un_fwd(kind, a@),
{
    let mut r: Vec<E> = Vec::new();
    let mut i: usize = 0;
    while i < a.len()
        invariant
            i <= a@.len(),
            r@.len() == i,
            forall|k: int| 0 <= k < i ==> r@[k] == un_fwd(kind, a@)[k],
        decreases a@.len() - i,
    {
        let v = match kind {
            UnaryKind::Abs => a[i].abs_val(),
            UnaryKind::Exp => a[i].exp_val(),
        };
        r.push(v);
        i = i + 1;
    }
    proof {
        assert(r@ =~= un_fwd(kind, a@));
    }
    r
}

fn sum_all<E: Scalar>(a: &Vec<E>) -> (r: E)
    ensures
        r == sum_acc(a@, a@.len() as int),
{
    let mut acc = E::zero();
    let mut i: usize = 0;
    while i < a.len()
        invariant
            i <= a@.len(),
            acc == sum_acc(a@, i as int),
        decreases a@.len() - i,
    {
        acc = acc.plus(a[i]);
        i = i + 1;
    }
    acc
}

/// Shared composition step of the elementwise binary operations.
fn binary_op<E: Scalar>(kind: BinaryKind, lhs: Tensor<E>, rhs: &Tensor<E>, ids: &mut IdSource) -> (r:
    Tensor<E>)
    requires
        lhs.wf(),
        rhs.wf(),
        !rhs.is_traced(),
        lhs.rows == rhs.rows,
        lhs.cols == rhs.cols,
        lhs.id < old(ids).next_id(),
        rhs.id < old(ids).next_id(),
        old(ids).next_id() < u64::MAX,
    ensures
        r.id == old(ids).next_id(),
        final(ids).next_id() == old(ids).next_id() + 1,
        r.rows == lhs.rows,
        r.cols == lhs.cols,
        r.data@ == bin_fwd(kind, lhs.data@, rhs.data@),
        r.is_traced() == lhs.is_traced(),
        r.tape_grads() == lhs.tape_grads(),
        lhs.is_traced() ==> r.tape_ops() == lhs.tape_ops().push(
            OpV::Binary {
                kind,
                lhs_id: lhs.id,
                rhs_id: rhs.id,
                out_id: old(ids).next_id(),
                lhs: lhs.data@,
                rhs: rhs.data@,
            },
        ),
        !lhs.is_traced() ==> r.tape_ops() == Seq::<OpV<E>>::empty(),
        r.wf(),
{
    let rows = lhs.rows;
    let cols = lhs.cols;
    let out_data = bin_forward(kind, &lhs.data, &rhs.data);
    let out_id = ids.fresh();
    let rhs_snapshot = crate::scalar::copy_buf(&rhs.data);
    let rhs_id = rhs.id;
    let was_traced = lhs.traced();
    let (lhs_val, mut tape) = lhs.split_tape();
    if was_traced {
        let op = BackwardOp::Binary {
            kind,
            lhs_id: lhs_val.id,
            rhs_id,
            out_id,
            lhs: lhs_val.data,
            rhs: rhs_snapshot,
        };
        tape.add_backward_op(op);
        Tensor { id: out_id, rows, cols, data: out_data, tape: TapeState::Traced(tape) }
    } else {
        Tensor { id: out_id, rows, cols, data: out_data, tape: TapeState::Untracked }
    }
}

/// Shared composition step of the elementwise unary operations.
fn unary_op<E: Scalar>(kind: UnaryKind, lhs: Tensor<E>, ids: &mut IdSource) -> (r: Tensor<E>)
    requires
        lhs.wf(),
        lhs.id < old(ids).next_id(),
        old(ids).next_id() < u64::MAX,
    ensures
        r.id == old(ids).next_id(),
        final(ids).next_id() == old(ids).next_id() + 1,
        r.rows == lhs.rows,
        r.cols == lhs.cols,
        r.data@ == un_fwd(kind, lhs.data@),
        r.is_traced() == lhs.is_traced(),
        r.tape_grads() == lhs.tape_grads(),
        lhs.is_traced() ==> r.tape_ops() == lhs.tape_ops().push(
            OpV::Unary { kind, lhs_id: lhs.id, out_id: old(ids).next_id(), lhs: lhs.data@ },
        ),
        !lhs.is_traced() ==> r.tape_ops() == Seq::<OpV<E>>::empty(),
        r.wf(),
{
    let rows = lhs.rows;
    let cols = lhs.cols;
    let out_data = un_forward(kind, &lhs.data);
    let out_id = ids.fresh();
    let was_traced = lhs.traced();
    let (lhs_val, mut tape) = lhs.split_tape();
    if was_traced {
        let op = BackwardOp::Unary { kind, lhs_id: lhs_val.id, out_id, lhs: lhs_val.data };
        tape.add_backward_op(op);
        Tensor { id: out_id, rows, cols, data: out_data, tape: TapeState::Traced(tape) }
    } else {
        Tensor { id: out_id, rows, cols, data: out_data, tape: TapeState::Untracked }
    }
}

impl<E: Scalar> Tensor<E> {
    /// Elementwise subtraction of an untracked same-shape tensor.
    pub fn sub(self, rhs: &Tensor<E>, ids: &mut IdSource) -> (r: Tensor<E>)
        requires
            self.wf(),
            rhs.wf(),
            !rhs.is_traced(),
            self.rows == rhs.rows,
            self.cols == rhs.cols,
            self.id < old(ids).next_id(),
            rhs.id < old(ids).next_id(),
            old(ids).next_id() < u64::MAX,
        ensures
            r.id == old(ids).next_id(),
            final(ids).next_id() == old(ids).next_id() + 1,
            r.rows == self.rows,
            r.cols == self.cols,
            r.data@ == bin_fwd(BinaryKind::Sub, self.data@, rhs.data@),
            r.is_traced() == self.is_traced(),
            r.tape_grads() == self.tape_grads(),
            self.is_traced() ==> r.tape_ops() == self.tape_ops().push(
                OpV::Binary {
                    kind: BinaryKind::Sub,
                    lhs_id: self.id,
                    rhs_id: rhs.id,
                    out_id: old(ids).next_id(),
                    lhs: self.data@,
                    rhs: rhs.data@,
                },
            ),
            !self.is_traced() ==> r.tape_ops() == Seq::<OpV<E>>::empty(),
            r.wf(),
    {
        binary_op(BinaryKind::Sub, self, rhs, ids)
    }

    /// Elementwise multiplication by an untracked same-shape tensor.
    pub fn mul(self, rhs: &Tensor<E>, ids: &mut IdSource) -> (r: Tensor<E>)
        requires
            self.wf(),
            rhs.wf(),
            !rhs.is_traced(),
            self.rows == rhs.rows,
            self.cols == rhs.cols,
            self.id < old(ids).next_id(),
            rhs.id < old(ids).next_id(),
            old(ids).next_id() < u64::MAX,
        ensures
            r.id == old(ids).next_id(),
            final(ids).next_id() == old(ids).next_id() + 1,
            r.rows == self.rows,
            r.cols == self.cols,
            r.data@ == bin_fwd(BinaryKind::Mul, self.data@, rhs.data@),
            r.is_traced() == self.is_traced(),
            r.tape_grads() == self.tape_grads(),
            self.is_traced() ==> r.tape_ops() == self.tape_ops().push(
                OpV::Binary {
                    kind: BinaryKind::Mul,
                    lhs_id: self.id,
                    rhs_id: rhs.id,
                    out_id: old(ids).next_id(),
                    lhs: self.data@,
                    rhs: rhs.data@,
                },
            ),
            !self.is_traced() ==> r.tape_ops() == Seq::<OpV<E>>::empty(),
            r.wf(),
    {
        binary_op(BinaryKind::Mul, self, rhs, ids)
    }

    /// Elementwise absolute value.
    pub fn abs(self, ids: &mut IdSource) -> (r: Tensor<E>)
        requires
            self.wf(),
            self.id < old(ids).next_id(),
            old(ids).next_id() < u64::MAX,
        ensures
            r.id == old(ids).next_id(),
            final(ids).next_id() == old(ids).next_id() + 1,
            r.rows == self.rows,
            r.cols == self.cols,
            r.data@ == un_fwd(UnaryKind::Abs, self.data@),
            r.is_traced() == self.is_traced(),
            r.tape_grads() == self.tape_grads(),
            self.is_traced() ==> r.tape_ops() == self.tape_ops().push(
                OpV::Unary {
                    kind: UnaryKind::Abs,
                    lhs_id: self.id,
                    out_id: old(ids).next_id(),
                    lhs: self.data@,
                },
            ),
            !self.is_traced() ==> r.tape_ops() == Seq::<OpV<E>>::empty(),
            r.wf(),
    {
        unary_op(UnaryKind::Abs, self, ids)
    }

    /// Elementwise exponential.
    pub fn exp(self, ids: &mut IdSource) -> (r: Tensor<E>)
        requires
            self.wf(),
            self.id < old(ids).next_id(),
            old(ids).next_id() < u64::MAX,
        ensures
            r.id == old(ids).next_id(),
            final(ids).next_id() == old(ids).next_id() + 1,
            r.rows == self.rows,
            r.cols == self.cols,
            r.data@ == un_fwd(UnaryKind::Exp, self.data@),
            r.is_traced() == self.is_traced(),
            r.tape_grads() == self.tape_grads(),
            self.is_traced() ==> r.tape_ops() == self.tape_ops().push(
                OpV::Unary {
                    kind: UnaryKind::Exp,
                    lhs_id: self.id,
                    out_id: old(ids).next_id(),
                    lhs: self.data@,
                },
            ),
            !self.is_traced() ==> r.tape_ops() == Seq::<OpV<E>>::empty(),
            r.wf(),
    {
        unary_op(UnaryKind::Exp, self, ids)
    }

    /// Mean reduction of all elements to a scalar tensor.
    pub fn mean(self, ids: &mut IdSource) -> (r: Tensor<E>)
        requires
            self.wf(),
            self.id < old(ids).next_id(),
            old(ids).next_id() < u64::MAX,
        ensures
            r.id == old(ids).next_id(),
            final(ids).next_id() == old(ids).next_id() + 1,
            r.rows == 1,
            r.cols == 1,
            r.data@ == seq![mean_val(self.data@)],
            r.is_traced() == self.is_traced(),
            r.tape_grads() == self.tape_grads(),
            self.is_traced() ==> r.tape_ops() == self.tape_ops().push(
                OpV::Mean {
                    lhs_id: self.id,
                    out_id: old(ids).next_id(),
                    n: self.data@.len() as usize,
                },
            ),
            !self.is_traced() ==> r.tape_ops() == Seq::<OpV<E>>::empty(),
            r.wf(),
    {
        let n = self.data.len();
        let s = sum_all(&self.data);
        let v = s.div_by(E::from_count(n));
        let mut out_data: Vec<E> = Vec::new();
        out_data.push(v);
        proof {
            assert(out_data@ =~= seq![mean_val(self.data@)]);
        }
        let out_id = ids.fresh();
        let was_traced = self.traced();
        let (lhs_val, mut tape) = self.split_tape();
        if was_traced {
            let op = BackwardOp::Mean { lhs_id: lhs_val.id, out_id, n };
            tape.add_backward_op(op);
            Tensor { id: out_id, rows: 1, cols: 1, data: out_data, tape: TapeState::Traced(tape) }
        } else {
            Tensor { id: out_id, rows: 1, cols: 1, data: out_data, tape: TapeState::Untracked }
        }
    }
}

} // verus!
