//! The single-input optimizer choice.
use vstd::prelude::*;

verus! {

/// Parameter update rules applied after each back propagation.
#[allow(non_camel_case_types)]
#[derive(Debug, Clone, Copy, PartialEq, Eq)]
pub enum Optimizer {
    /// Stochastic gradient descent on a single input.
    SGD_SINGLE,
}

} // verus!
