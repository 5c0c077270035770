//! A reverse-mode automatic-differentiation engine for fixed-shape tensors.
//!
//! The engine records differentiable operations on a gradient tape while the
//! forward computation runs, then replays the tape in reverse order to fill a
//! gradient store, which an optimizer drains to update model parameters.
//!
//! All numeric work is expressed over the abstract element contract
//! [`scalar::Scalar`], so the whole engine is verified independently of the
//! element type a caller plugs in.

pub mod collate;
pub mod data_loader;
pub mod ewise;
pub mod gradients;
pub mod matmul;
pub mod scalar;
pub mod sgd;
pub mod tape;
pub mod tensor;
pub mod unique_id;
