//! Collation: building one batch tensor out of a group of individual
//! samples.

use vstd::prelude::*;

use crate::scalar::Scalar;
use crate::tensor::Tensor;
use crate::unique_id::IdSource;

verus! {

/// The storage of the batch built by stacking the samples' rows in order.
pub open spec fn stacked<E: Scalar>(samples: Seq<Tensor<E>>) -> Seq<E>
    decreases samples.len(),
{
    if samples.len() == 0 {
        Seq::empty()
    } else {
        samples[0].data@ + stacked(samples.drop_first())
    }
}

/// Whether a group of samples can be stacked into one batch: every sample
/// is a row vector of the same width, and the batch fits in memory.
pub open spec fn stackable<E: Scalar>(samples: Seq<Tensor<E>>, width: int) -> bool {
    &&& forall|i: int|
        0 <= i < samples.len() ==> (#[trigger] samples[i]).rows == 1 && samples[i].cols == width
            && samples[i].data@.len() == width
    &&& samples.len() * width <= usize::MAX
}

/// A stack of row vectors holds one row per sample.
pub proof fn lemma_stacked_len<E: Scalar>(samples: Seq<Tensor<E>>, width: int)
    requires
        width >= 0,
        forall|i: int|
            0 <= i < samples.len() ==> (#[trigger] samples[i]).data@.len() == width,
    ensures
        stacked(samples).len() == samples.len() * width,
    decreases samples.len(),
{
    if samples.len() == 0 {
        assert(samples.len() * width == 0) by (nonlinear_arith)
            requires
                samples.len() == 0,
        ;
    } else {
        lemma_stacked_len(samples.drop_first(), width);
        assert(samples.len() * width == width + (samples.len() - 1) * width) by (nonlinear_arith);
    }
}

/// Builds one batch from a group of samples.
pub trait Collate<E: Scalar> {
    /// Stacks equal-width row-vector samples into one fresh batch tensor
    /// whose storage is [`stacked`] of the samples.
    fn collate(&self, samples: Vec<Tensor<E>>, width: usize, ids: &mut IdSource) -> (r: Tensor<E>)
        requires
            stackable(samples@, width as int),
            old(ids).next_id() < u64::MAX,
        ensures
            r.id == old(ids).next_id(),
            final(ids).next_id() == old(ids).next_id() + 1,
            r.rows == samples@.len(),
            r.cols == width,
            r.data@ == stacked(samples@),
            !r.is_traced(),
            r.wf(),
    ;
}

/// The standard collation: row vectors of width `w` become the rows of one
/// untracked `B × w` tensor, in sample order.
#[derive(Clone, Default)]
pub struct DefaultCollate;

impl<E: Scalar> Collate<E> for DefaultCollate {
    fn collate(&self, samples: Vec<Tensor<E>>, width: usize, ids: &mut IdSource) -> (r: Tensor<E>)
    {
        let ghost all = samples@;
        let batch = samples.len();
        let mut rest = samples;
        let mut data: Vec<E> = Vec::new();
        proof {
            lemma_stacked_len(all, width as int);
        }
        while rest.len() > 0
            invariant
                all.len() * width <= usize::MAX,
                forall|i: int|
                    0 <= i < all.len() ==> (#[trigger] all[i]).data@.len() == width,
                rest@ == all.skip(all.len() - rest@.len()),
                rest@.len() <= all.len(),
                data@ + stacked(rest@) == stacked(all),
                data@.len() == (all.len() - rest@.len()) * width,
            decreases rest@.len(),
        {
            let ghost rest_pre = rest@;
            let mut s = rest.remove(0);
            proof {
                assert(rest@ =~= rest_pre.drop_first());
                assert(all.skip(all.len() - rest@.len()) =~= rest_pre.drop_first());
                assert((all.len() - rest_pre.len()) * width + width == (all.len() - rest@.len())
                    * width) by (nonlinear_arith)
                    requires
                        rest@.len() == rest_pre.len() - 1,
                ;
            }
            data.append(&mut s.data);
            proof {
                assert(data@ + stacked(rest@) =~= stacked(all));
            }
        }
        proof {
            assert(stacked(rest@) =~= Seq::<E>::empty());
            assert(data@ =~= stacked(all));
            assert(all.len() * width == (all.len() - 0) * width);
        }
        Tensor::new(batch, width, data, ids)
    }
}

} // verus!
