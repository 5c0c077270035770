//! The in-library face of the batching pipeline.
//!
//! Drawing samples, shuffling and iteration belong to the excluded
//! data-loading layer around the engine; what stands here is the batching
//! rule that layer must follow, and the marker interfaces its loaders and
//! samplers implement.

use vstd::prelude::*;

verus! {

/// A source of samples.
pub trait Dataset {

}

/// A dataset that can be walked from front to back.
pub trait IterableDataset: Dataset {

}

/// A strategy for choosing the order in which samples are drawn.
pub trait Sampler {

}

/// A wrapper around a dataset that yields batches of samples.
pub trait DataLoader {

}

/// The batching rule: a group of `n` samples drawn toward a batch of
/// `batch_size` is emitted exactly when it is non-empty and either full or
/// allowed to stay partial because the loader keeps a trailing remainder.
pub fn keep_batch(n: usize, batch_size: usize, drop_last: bool) -> (r: bool)
    ensures
        r == (n > 0 && (n == batch_size || !drop_last)),
{
    n > 0 && (n == batch_size || !drop_last)
}

} // verus!
