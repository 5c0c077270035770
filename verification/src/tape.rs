//! The gradient tape: an append-only record of backward operations, replayed
//! in reverse order to populate a gradient store.
//!
//! A backward operation is recorded once, holds snapshots of whatever
//! forward-time data its gradient kernels need, and, when invoked, reads the
//! gradient of its output tensor from the store and accumulates into the
//! gradients of its input tensors. Replaying last-recorded-first is the
//! correctness-critical invariant of reverse-mode differentiation: an
//! operation runs only after every operation that consumed its output has
//! contributed to that output's gradient.

use vstd::prelude::*;

use crate::gradients::{entry_or_zero, Gradients};
use crate::matmul::{
    gemm_spec, matmat_mul_into, matmat_mul_into_xt, matmat_mul_into_xtzt, matmat_mul_into_yt,
};
use crate::scalar::{alloc_ones, one_seq, Scalar};

verus! {

/// The elementwise binary operations the engine can differentiate.
#[derive(Clone, Copy)]
pub enum BinaryKind {
    /// `out = lhs - rhs`
    Sub,
    /// `out = lhs ⊙ rhs`
    Mul,
}

/// The elementwise unary operations the engine can differentiate.
#[derive(Clone, Copy)]
pub enum UnaryKind {
    /// `out = |lhs|`
    Abs,
    /// `out = e^lhs`
    Exp,
}

/// Derivative of a binary operation with respect to its left operand, at one
/// element position.
pub open spec fn bin_dlhs<E: Scalar>(kind: BinaryKind, x: E, y: E) -> E {
    match kind {
        BinaryKind::Sub => E::one_s(),
        BinaryKind::Mul => y,
    }
}

/// Derivative of a binary operation with respect to its right operand, at
/// one element position.
pub open spec fn bin_drhs<E: Scalar>(kind: BinaryKind, x: E, y: E) -> E {
    match kind {
        BinaryKind::Sub => E::one_s().neg_s(),
        BinaryKind::Mul => x,
    }
}

/// Derivative of a unary operation at one element position, recomputed from
/// the snapshotted input element.
pub open spec fn un_df<E: Scalar>(kind: UnaryKind, x: E) -> E {
    match kind {
        UnaryKind::Abs => x.sign_s(),
        UnaryKind::Exp => x.exp_s(),
    }
}

/// A recorded backward operation: the identities it addresses in the
/// gradient store, the logical shapes involved, and snapshots of the operand
/// values its kernels read.
#[allow(inconsistent_fields)]
pub enum BackwardOp<E: Scalar> {
    /// Backward of `out = lhs · rhs` with `lhs: m × n`, `rhs: n × o`:
    /// `d_lhs += d_out · rhsᵗ` and `d_rhs += lhsᵗ · d_out`.
    Matmul {
        m: usize,
        n: usize,
        o: usize,
        lhs_id: u64,
        rhs_id: u64,
        out_id: u64,
        lhs: Vec<E>,
        rhs: Vec<E>,
    },
    /// Backward of `out = lhs · rhs_tᵗ` with `lhs: m × n` and the right
    /// operand held transposed as `rhs_t: o × n`: `d_lhs += d_out · rhs_t`
    /// and `d_rhs_tᵗ += lhsᵗ · d_out`.
    MatmulT {
        m: usize,
        n: usize,
        o: usize,
        lhs_id: u64,
        rhs_id: u64,
        out_id: u64,
        lhs: Vec<E>,
        rhs_t: Vec<E>,
    },
    /// Backward of an elementwise binary operation over equal-shape
    /// operands: `d_in += d(out)/d(in) ⊙ d_out` for each operand.
    Binary {
        kind: BinaryKind,
        lhs_id: u64,
        rhs_id: u64,
        out_id: u64,
        lhs: Vec<E>,
        rhs: Vec<E>,
    },
    /// Backward of an elementwise unary operation:
    /// `d_lhs += d(out)/d(lhs) ⊙ d_out`.
    Unary { kind: UnaryKind, lhs_id: u64, out_id: u64, lhs: Vec<E> },
    /// Backward of a mean reduction of `n` elements to one:
    /// `d_lhs[i] += d_out[0] / n`.
    Mean { lhs_id: u64, out_id: u64, n: usize },
}

/// The mathematical content of a recorded backward operation.
#[allow(inconsistent_fields)]
pub enum OpV<E: Scalar> {
    Matmul {
        m: usize,
        n: usize,
        o: usize,
        lhs_id: u64,
        rhs_id: u64,
        out_id: u64,
        lhs: Seq<E>,
        rhs: Seq<E>,
    },
    MatmulT {
        m: usize,
        n: usize,
        o: usize,
        lhs_id: u64,
        rhs_id: u64,
        out_id: u64,
        lhs: Seq<E>,
        rhs_t: Seq<E>,
    },
    Binary { kind: BinaryKind, lhs_id: u64, rhs_id: u64, out_id: u64, lhs: Seq<E>, rhs: Seq<E> },
    Unary { kind: UnaryKind, lhs_id: u64, out_id: u64, lhs: Seq<E> },
    Mean { lhs_id: u64, out_id: u64, n: usize },
}

impl<E: Scalar> View for BackwardOp<E> {
    type V = OpV<E>;

    open spec fn view(&self) -> OpV<E> {
        match *self {
            BackwardOp::Matmul { m, n, o, lhs_id, rhs_id, out_id, ref lhs, ref rhs } => {
                OpV::Matmul { m, n, o, lhs_id, rhs_id, out_id, lhs: lhs@, rhs: rhs@ }
            },
            BackwardOp::MatmulT { m, n, o, lhs_id, rhs_id, out_id, ref lhs, ref rhs_t } => {
                OpV::MatmulT { m, n, o, lhs_id, rhs_id, out_id, lhs: lhs@, rhs_t: rhs_t@ }
            },
            BackwardOp::Binary { kind, lhs_id, rhs_id, out_id, ref lhs, ref rhs } => {
                OpV::Binary { kind, lhs_id, rhs_id, out_id, lhs: lhs@, rhs: rhs@ }
            },
            BackwardOp::Unary { kind, lhs_id, out_id, ref lhs } => {
                OpV::Unary { kind, lhs_id, out_id, lhs: lhs@ }
            },
            BackwardOp::Mean { lhs_id, out_id, n } => OpV::Mean { lhs_id, out_id, n },
        }
    }
}

impl<E: Scalar> OpV<E> {
    /// Well-formedness of a recorded operation: snapshots have the shapes
    /// the operation claims, buffer sizes fit the machine, and no input
    /// identity collides with the output identity — the condition under
    /// which the replay's dual store fetches are legitimate.
    pub open spec fn wf(self) -> bool {
        match self {
            OpV::Matmul { m, n, o, lhs_id, rhs_id, out_id, lhs, rhs } => {
                &&& lhs.len() == m * n
                &&& rhs.len() == n * o
                &&& m * o <= usize::MAX
                &&& lhs_id != out_id
                &&& rhs_id != out_id
            },
            OpV::MatmulT { m, n, o, lhs_id, rhs_id, out_id, lhs, rhs_t } => {
                &&& lhs.len() == m * n
                &&& rhs_t.len() == o * n
                &&& m * o <= usize::MAX
                &&& lhs_id != out_id
                &&& rhs_id != out_id
            },
            OpV::Binary { kind, lhs_id, rhs_id, out_id, lhs, rhs } => {
                &&& lhs.len() == rhs.len()
                &&& lhs_id != out_id
                &&& rhs_id != out_id
            },
            OpV::Unary { kind, lhs_id, out_id, lhs } => lhs_id != out_id,
            OpV::Mean { lhs_id, out_id, n } => lhs_id != out_id,
        }
    }
}

/// What one backward operation does to the gradient store: for each input,
/// the output's gradient is fetched read-only, the input's gradient buffer
/// is fetched for writing, and the operation's gradient kernel accumulates
/// into it.
pub open spec fn run_op_spec<E: Scalar>(g: Map<u64, Seq<E>>, op: OpV<E>) -> Map<u64, Seq<E>> {
    match op {
        OpV::Matmul { m, n, o, lhs_id, rhs_id, out_id, lhs, rhs } => {
            let dout = entry_or_zero(g, out_id, (m * o) as nat);
            let la = entry_or_zero(g, lhs_id, (m * n) as nat);
            let la2 = gemm_spec(la, dout, false, rhs, true, m as int, o as int, n as int, false, true);
            let g1 = g.remove(lhs_id).insert(out_id, dout).insert(lhs_id, la2);
            let rb = entry_or_zero(g1, rhs_id, (n * o) as nat);
            let rb2 = gemm_spec(rb, lhs, true, dout, false, n as int, m as int, o as int, false, true);
            g1.remove(rhs_id).insert(out_id, dout).insert(rhs_id, rb2)
        },
        OpV::MatmulT { m, n, o, lhs_id, rhs_id, out_id, lhs, rhs_t } => {
            let dout = entry_or_zero(g, out_id, (m * o) as nat);
            let la = entry_or_zero(g, lhs_id, (m * n) as nat);
            let la2 = gemm_spec(la, dout, false, rhs_t, false, m as int, o as int, n as int, false, true);
            let g1 = g.remove(lhs_id).insert(out_id, dout).insert(lhs_id, la2);
            let rb = entry_or_zero(g1, rhs_id, (o * n) as nat);
            let rb2 = gemm_spec(rb, lhs, true, dout, false, n as int, m as int, o as int, true, true);
            g1.remove(rhs_id).insert(out_id, dout).insert(rhs_id, rb2)
        },
        OpV::Binary { kind, lhs_id, rhs_id, out_id, lhs, rhs } => {
            let len = lhs.len();
            let dout = entry_or_zero(g, out_id, len);
            let la = entry_or_zero(g, lhs_id, len);
            let la2 = Seq::new(len, |i: int| la[i].add_s(bin_dlhs(kind, lhs[i], rhs[i]).mul_s(dout[i])));
            let g1 = g.remove(lhs_id).insert(out_id, dout).insert(lhs_id, la2);
            let rb = entry_or_zero(g1, rhs_id, len);
            let rb2 = Seq::new(len, |i: int| rb[i].add_s(bin_drhs(kind, lhs[i], rhs[i]).mul_s(dout[i])));
            g1.remove(rhs_id).insert(out_id, dout).insert(rhs_id, rb2)
        },
        OpV::Unary { kind, lhs_id, out_id, lhs } => {
            let len = lhs.len();
            let dout = entry_or_zero(g, out_id, len);
            let la = entry_or_zero(g, lhs_id, len);
            let la2 = Seq::new(len, |i: int| la[i].add_s(un_df(kind, lhs[i]).mul_s(dout[i])));
            g.remove(lhs_id).insert(out_id, dout).insert(lhs_id, la2)
        },
        OpV::Mean { lhs_id, out_id, n } => {
            let dout = entry_or_zero(g, out_id, 1);
            let la = entry_or_zero(g, lhs_id, n as nat);
            let la2 = Seq::new(n as nat, |i: int| la[i].add_s(dout[0].div_s(E::from_count_s(n))));
            g.remove(lhs_id).insert(out_id, dout).insert(lhs_id, la2)
        },
    }
}

/// The result of replaying recorded operations strictly in reverse of
/// recording order: the last element of `ops` is applied first.
pub open spec fn replay<E: Scalar>(g: Map<u64, Seq<E>>, ops: Seq<OpV<E>>) -> Map<u64, Seq<E>>
    decreases ops.len(),
{
    if ops.len() == 0 {
        g
    } else {
        replay(run_op_spec(g, ops.last()), ops.drop_last())
    }
}

/// Derivative factor of a binary operation with respect to one side, for
/// every element position at once.
fn bin_factors<E: Scalar>(kind: BinaryKind, left: bool, lhs: &Vec<E>, rhs: &Vec<E>) -> (r: Vec<E>)
    requires
        lhs@.len() == rhs@.len(),
    ensures
        r@.len() == lhs@.len(),
        forall|i: int|
            0 <= i < r@.len() ==> r@[i] == if left {
                bin_dlhs(kind, lhs@[i], rhs@[i])
            } else {
                bin_drhs(kind, lhs@[i], rhs@[i])
            },
{
    let mut r: Vec<E> = Vec::new();
    let mut i: usize = 0;
    while i < lhs.len()
        invariant
            lhs@.len() == rhs@.len(),
            i <= lhs@.len(),
            r@.len() == i,
            forall|k: int|
                0 <= k < i ==> r@[k] == if left {
                    bin_dlhs(kind, lhs@[k], rhs@[k])
                } else {
                    bin_drhs(kind, lhs@[k], rhs@[k])
                },
        decreases lhs@.len() - i,
    {
        let f = match kind {
            BinaryKind::Sub => {
                if left {
                    E::one()
                } else {
                    E::one().neg()
                }
            },
            BinaryKind::Mul => {
                if left {
                    rhs[i]
                } else {
                    lhs[i]
                }
            },
        };
        r.push(f);
        i = i + 1;
    }
    r
}

/// Derivative factor of a unary operation, for every element position at
/// once, recomputed from the snapshotted input.
fn un_factors<E: Scalar>(kind: UnaryKind, lhs: &Vec<E>) -> (r: Vec<E>)
    ensures
        r@.len() == lhs@.len(),
        forall|i: int| 0 <= i < r@.len() ==> r@[i] == un_df(kind, lhs@[i]),
{
    let mut r: Vec<E> = Vec::new();
    let mut i: usize = 0;
    while i < lhs.len()
        invariant
            i <= lhs@.len(),
            r@.len() == i,
            forall|k: int| 0 <= k < i ==> r@[k] == un_df(kind, lhs@[k]),
        decreases lhs@.len() - i,
    {
        let f = match kind {
            UnaryKind::Abs => lhs[i].sign_val(),
            UnaryKind::Exp => lhs[i].exp_val(),
        };
        r.push(f);
        i = i + 1;
    }
    r
}

/// `dst[i] += f[i] * dout[i]` for every position: one elementwise gradient
/// accumulation.
fn accumulate_product<E: Scalar>(dst: &mut Vec<E>, f: &Vec<E>, dout: &Vec<E>)
    requires
        old(dst)@.len() == f@.len(),
        old(dst)@.len() == dout@.len(),
    ensures
        final(dst)@ == Seq::new(
            old(dst)@.len(),
            |i: int| old(dst)@[i].add_s(f@[i].mul_s(dout@[i])),
        ),
{
    let mut i: usize = 0;
    while i < dst.len()
        invariant
            dst@.len() == old(dst)@.len(),
            f@.len() == old(dst)@.len(),
            dout@.len() == old(dst)@.len(),
            i <= dst@.len(),
            forall|k: int| 0 <= k < i ==> dst@[k] == old(dst)@[k].add_s(f@[k].mul_s(dout@[k])),
            forall|k: int| i <= k < dst@.len() ==> dst@[k] == old(dst)@[k],
        decreases dst@.len() - i,
    {
        let v = dst[i].plus(f[i].times(dout[i]));
        dst.set(i, v);
        i = i + 1;
    }
    proof {
        assert(dst@ =~= Seq::new(
            old(dst)@.len(),
            |i: int| old(dst)@[i].add_s(f@[i].mul_s(dout@[i])),
        ));
    }
}

/// `dst[i] += v` for every position: the broadcast accumulation of a mean
/// reduction's backward step.
fn accumulate_scalar<E: Scalar>(dst: &mut Vec<E>, v: E)
    ensures
        final(dst)@ == Seq::new(old(dst)@.len(), |i: int| old(dst)@[i].add_s(v)),
{
    let mut i: usize = 0;
    while i < dst.len()
        invariant
            dst@.len() == old(dst)@.len(),
            i <= dst@.len(),
            forall|k: int| 0 <= k < i ==> dst@[k] == old(dst)@[k].add_s(v),
            forall|k: int| i <= k < dst@.len() ==> dst@[k] == old(dst)@[k],
        decreases dst@.len() - i,
    {
        let w = dst[i].plus(v);
        dst.set(i, w);
        i = i + 1;
    }
    proof {
        assert(dst@ =~= Seq::new(old(dst)@.len(), |i: int| old(dst)@[i].add_s(v)));
    }
}

/// Invokes one recorded backward operation against the shared gradient
/// store: exactly the store transformation [`run_op_spec`] describes.
pub fn run_op<E: Scalar>(op: BackwardOp<E>, grads: &mut Gradients<E>)
    requires
        op@.wf(),
    ensures
        final(grads)@ == run_op_spec(old(grads)@, op@),
{
    match op {
        BackwardOp::Matmul { m, n, o, lhs_id, rhs_id, out_id, lhs, rhs } => {
            let mo: usize = m * o;
            proof {
                assert(n * o == o * n) by (nonlinear_arith);
                assert(m * n == n * m) by (nonlinear_arith);
            }
            let (mut la, dout) = grads.mut_and_ref(lhs_id, lhs.len(), out_id, mo);
            matmat_mul_into_yt(&dout, &rhs, &mut la, m, o, n);
            grads.insert(lhs_id, la);
            let (mut rb, dout2) = grads.mut_and_ref(rhs_id, rhs.len(), out_id, mo);
            matmat_mul_into_xt(&lhs, &dout2, &mut rb, n, m, o);
            grads.insert(rhs_id, rb);
        },
        BackwardOp::MatmulT { m, n, o, lhs_id, rhs_id, out_id, lhs, rhs_t } => {
            let mo: usize = m * o;
            proof {
                assert(n * o == o * n) by (nonlinear_arith);
                assert(m * n == n * m) by (nonlinear_arith);
            }
            let (mut la, dout) = grads.mut_and_ref(lhs_id, lhs.len(), out_id, mo);
            matmat_mul_into(&dout, &rhs_t, &mut la, m, o, n);
            grads.insert(lhs_id, la);
            let (mut rb, dout2) = grads.mut_and_ref(rhs_id, rhs_t.len(), out_id, mo);
            matmat_mul_into_xtzt(&lhs, &dout2, &mut rb, n, m, o);
            grads.insert(rhs_id, rb);
        },
        BackwardOp::Binary { kind, lhs_id, rhs_id, out_id, lhs, rhs } => {
            let len = lhs.len();
            let (mut la, dout) = grads.mut_and_ref(lhs_id, len, out_id, len);
            let f1 = bin_factors(kind, true, &lhs, &rhs);
            accumulate_product(&mut la, &f1, &dout);
            proof {
                assert(la@ =~= Seq::new(
                    lhs@.len(),
                    |i: int| entry_or_zero(old(grads)@, lhs_id, lhs@.len())[i].add_s(
                        bin_dlhs(kind, lhs@[i], rhs@[i]).mul_s(
                            entry_or_zero(old(grads)@, out_id, lhs@.len())[i],
                        ),
                    ),
                ));
            }
            grads.insert(lhs_id, la);
            let (mut rb, dout2) = grads.mut_and_ref(rhs_id, len, out_id, len);
            let f2 = bin_factors(kind, false, &lhs, &rhs);
            accumulate_product(&mut rb, &f2, &dout2);
            proof {
                let g1 = old(grads)@.remove(lhs_id).insert(
                    out_id,
                    entry_or_zero(old(grads)@, out_id, lhs@.len()),
                ).insert(lhs_id, la@);
                assert(rb@ =~= Seq::new(
                    lhs@.len(),
                    |i: int| entry_or_zero(g1, rhs_id, lhs@.len())[i].add_s(
                        bin_drhs(kind, lhs@[i], rhs@[i]).mul_s(
                            entry_or_zero(old(grads)@, out_id, lhs@.len())[i],
                        ),
                    ),
                ));
            }
            grads.insert(rhs_id, rb);
        },
        BackwardOp::Unary { kind, lhs_id, out_id, lhs } => {
            let len = lhs.len();
            let (mut la, dout) = grads.mut_and_ref(lhs_id, len, out_id, len);
            let f = un_factors(kind, &lhs);
            accumulate_product(&mut la, &f, &dout);
            proof {
                assert(la@ =~= Seq::new(
                    lhs@.len(),
                    |i: int| entry_or_zero(old(grads)@, lhs_id, lhs@.len())[i].add_s(
                        un_df(kind, lhs@[i]).mul_s(
                            entry_or_zero(old(grads)@, out_id, lhs@.len())[i],
                        ),
                    ),
                ));
            }
            grads.insert(lhs_id, la);
        },
        BackwardOp::Mean { lhs_id, out_id, n } => {
            let (mut la, dout) = grads.mut_and_ref(lhs_id, n, out_id, 1);
            let v = dout[0].div_by(E::from_count(n));
            accumulate_scalar(&mut la, v);
            proof {
                assert(la@ =~= Seq::new(
                    n as nat,
                    |i: int| entry_or_zero(old(grads)@, lhs_id, n as nat)[i].add_s(
                        entry_or_zero(old(grads)@, out_id, 1)[0].div_s(E::from_count_s(n)),
                    ),
                ));
            }
            grads.insert(lhs_id, la);
        },
    }
}

/// An ordered, append-only recording of backward operations, together with
/// the gradient store they will populate.
pub struct Tape<E: Scalar> {
    operations: Vec<BackwardOp<E>>,
    gradients: Gradients<E>,
}

impl<E: Scalar> Tape<E> {
    /// The recorded operations, oldest first.
    pub closed spec fn ops(self) -> Seq<OpV<E>> {
        self.operations@.map_values(|op: BackwardOp<E>| op@)
    }

    /// The contents of the tape's own gradient store; empty until the tape
    /// is driven to completion.
    pub closed spec fn grads(self) -> Map<u64, Seq<E>> {
        self.gradients@
    }

    /// Every recorded operation is well formed.
    pub open spec fn wf(self) -> bool {
        forall|i: int| 0 <= i < self.ops().len() ==> (#[trigger] self.ops()[i]).wf()
    }

    /// A tape with no recorded operations, equivalent to "no tape" for the
    /// purposes of composition.
    pub fn new() -> (r: Tape<E>)
        ensures
            r.ops() == Seq::<OpV<E>>::empty(),
            r.grads() == Map::<u64, Seq<E>>::empty(),
            r.wf(),
    {
        let r = Tape { operations: Vec::new(), gradients: Gradients::new() };
        proof {
            assert(r.ops() =~= Seq::<OpV<E>>::empty());
        }
        r
    }

    /// Appends one backward operation; prior entries are never removed or
    /// reordered.
    pub fn add_backward_op(&mut self, op: BackwardOp<E>)
        requires
            op@.wf(),
        ensures
            final(self).ops() == old(self).ops().push(op@),
            final(self).grads() == old(self).grads(),
            old(self).wf() ==> final(self).wf(),
    {
        self.operations.push(op);
        proof {
            assert(self.ops() =~= old(self).ops().push(op@));
        }
    }

    /// Concatenates another tape's recording onto this one, oldest entries
    /// of the receiver first; the donor's empty store is discarded and this
    /// tape carries the union recording forward.
    pub fn merge(&mut self, other: Tape<E>)
        ensures
            final(self).ops() == old(self).ops() + other.ops(),
            final(self).grads() == old(self).grads(),
            old(self).wf() && other.wf() ==> final(self).wf(),
    {
        let Tape { operations: mut donated, gradients: _donor_store } = other;
        self.operations.append(&mut donated);
        proof {
            assert(self.ops() =~= old(self).ops() + other.ops());
            if old(self).wf() && other.wf() {
                assert forall|i: int|
                    0 <= i < self.ops().len() implies (#[trigger] self.ops()[i]).wf() by {
                    if i < old(self).ops().len() {
                        assert(self.ops()[i] == old(self).ops()[i]);
                    } else {
                        assert(self.ops()[i] == other.ops()[i - old(self).ops().len()]);
                    }
                }
            }
        }
    }

    /// Drains the tape: seeds the store entry for `seed_id` with the
    /// all-one buffer of length `seed_len` — the derivative of a scalar
    /// with respect to itself — then invokes every recorded backward
    /// operation in reverse of recording order and hands back the populated
    /// store.
    pub fn backward(self, seed_id: u64, seed_len: usize) -> (r: Gradients<E>)
        requires
            self.wf(),
        ensures
            r@ == replay(
                self.grads().insert(seed_id, one_seq::<E>(seed_len as nat)),
                self.ops(),
            ),
    {
        let Tape { mut operations, mut gradients } = self;
        let seed = alloc_ones::<E>(seed_len);
        gradients.insert(seed_id, seed);
        let ghost target = replay(
            self.grads().insert(seed_id, one_seq::<E>(seed_len as nat)),
            self.ops(),
        );
        proof {
            assert forall|i: int|
                0 <= i < operations@.len() implies (#[trigger] operations@[i])@.wf() by {
                assert(self.ops()[i] == operations@[i]@);
                assert(self.ops()[i].wf());
            }
        }
        while operations.len() > 0
            invariant
                replay(gradients@, operations@.map_values(|op: BackwardOp<E>| op@)) == target,
                forall|i: int| 0 <= i < operations@.len() ==> (#[trigger] operations@[i])@.wf(),
            decreases operations@.len(),
        {
            let ghost before = operations@.map_values(|op: BackwardOp<E>| op@);
            let op = operations.pop().unwrap();
            proof {
                assert(operations@.map_values(|op: BackwardOp<E>| op@) =~= before.drop_last());
                assert(before.last() == op@);
                assert(before[before.len() - 1].wf());
            }
            run_op(op, &mut gradients);
        }
        proof {
            assert(operations@.map_values(|op: BackwardOp<E>| op@).len() == 0);
        }
        gradients
    }
}

/// Law (reverse-order replay): the operation recorded last is the first one
/// the backward pass applies; the rest of the tape then replays against the
/// store that operation produced.
pub proof fn lemma_last_recorded_runs_first<E: Scalar>(
    g: Map<u64, Seq<E>>,
    ops: Seq<OpV<E>>,
    op: OpV<E>,
)
    ensures
        replay(g, ops.push(op)) == replay(run_op_spec(g, op), ops),
{
    assert(ops.push(op).last() == op);
    assert(ops.push(op).drop_last() =~= ops);
}

/// Law (matmul/transpose duality, backward): from the same downstream
/// gradient store — one holding no gradient yet for the right operand — the
/// recorded backward steps of `matmul` against `rhs`, and of
/// `matmul_transpose` against the materialized transpose of `rhs`, leave
/// identical gradients for the left operand and for the output, and
/// gradients for the right operand that are each other's transpose: the
/// transposed operand's gradient is itself stored transposed.
pub proof fn lemma_matmul_transpose_backward_duality<E: Scalar>(
    g: Map<u64, Seq<E>>,
    m: usize,
    n: usize,
    o: usize,
    lhs_id: u64,
    rhs_id: u64,
    out_id: u64,
    lhs: Seq<E>,
    rhs: Seq<E>,
)
    requires
        lhs.len() == m * n,
        rhs.len() == n * o,
        lhs_id != out_id,
        rhs_id != out_id,
        rhs_id != lhs_id,
        !g.contains_key(rhs_id),
    ensures
        ({
            let plain = run_op_spec(g, OpV::Matmul { m, n, o, lhs_id, rhs_id, out_id, lhs, rhs });
            let transposed = run_op_spec(
                g,
                OpV::MatmulT {
                    m,
                    n,
                    o,
                    lhs_id,
                    rhs_id,
                    out_id,
                    lhs,
                    rhs_t: crate::matmul::transpose_seq(rhs, n as int, o as int),
                },
            );
            &&& transposed[lhs_id] == plain[lhs_id]
            &&& transposed[out_id] == plain[out_id]
            &&& transposed[rhs_id] == crate::matmul::transpose_seq(
                plain[rhs_id],
                n as int,
                o as int,
            )
        }),
{
    let mi = m as int;
    let ni = n as int;
    let oi = o as int;
    let bt = crate::matmul::transpose_seq(rhs, ni, oi);
    let dout = entry_or_zero(g, out_id, (m * o) as nat);
    let la = entry_or_zero(g, lhs_id, (m * n) as nat);
    crate::matmul::lemma_gemm_swap_tb_rev(la, dout, false, rhs, mi, ni, oi, false, true);
    let la2 = gemm_spec(la, dout, false, rhs, true, mi, oi, ni, false, true);
    let g1 = g.remove(lhs_id).insert(out_id, dout).insert(lhs_id, la2);
    assert(!g1.contains_key(rhs_id));
    assert(n * o == o * n) by (nonlinear_arith);
    let rb = entry_or_zero(g1, rhs_id, (n * o) as nat);
    assert(rb == crate::scalar::zero_seq::<E>((n * o) as nat));
    assert(entry_or_zero(g1, rhs_id, (o * n) as nat) == rb);
    assert forall|idx: int|
        0 <= idx < o * n implies crate::matmul::transpose_seq(rb, ni, oi)[idx] == rb[idx] by {
        crate::matmul::lemma_out_idx(true, ni, oi, idx);
        crate::matmul::lemma_rowmajor(idx % ni, idx / ni, ni, oi);
    }
    assert(crate::matmul::transpose_seq(rb, ni, oi) =~= rb);
    crate::matmul::lemma_gemm_transpose_out(rb, lhs, true, dout, false, ni, mi, oi, true);
    let rb2 = gemm_spec(rb, lhs, true, dout, false, ni, mi, oi, false, true);
    let rb2t = gemm_spec(rb, lhs, true, dout, false, ni, mi, oi, true, true);
    assert(rb2t == crate::matmul::transpose_seq(rb2, ni, oi));
}

/// Law (replay of a merged tape): replaying the concatenation of two
/// recordings replays the second recording in full first, then the first
/// against the store the second produced — every operation of the later
/// recording runs before any operation of the earlier one.
pub proof fn lemma_replay_of_merged<E: Scalar>(
    g: Map<u64, Seq<E>>,
    first: Seq<OpV<E>>,
    second: Seq<OpV<E>>,
)
    ensures
        replay(g, first + second) == replay(replay(g, second), first),
    decreases second.len(),
{
    if second.len() == 0 {
        assert(first + second =~= first);
    } else {
        assert((first + second).last() == second.last());
        assert((first + second).drop_last() =~= first + second.drop_last());
        lemma_replay_of_merged(run_op_spec(g, second.last()), first, second.drop_last());
    }
}

} // verus!
