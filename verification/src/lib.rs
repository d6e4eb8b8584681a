//! Shape bookkeeping, argument validation and sequence preparation for a
//! small multilayer perceptron.
//!
//! The numeric work of the network (matrix products, activations, losses and
//! parameter updates on `f32` values) lives in the application crate; this
//! library decides which inputs those computations accept, what shapes they
//! produce, how training batches are laid out, and how symbol sequences are
//! turned into windowed samples.
pub mod activation;
pub mod cache;
pub mod data_set;
pub mod layer;
pub mod network;
pub mod objective;
pub mod optimizer;
pub mod sequence;
pub mod trainer;
