//! The activation functions a layer can apply to its pre-activation.
use vstd::prelude::*;

verus! {

/// Element-wise activation of a layer. `RELU` keeps non-negative entries and
/// zeroes negative ones; `IDENTITY` passes the pre-activation through.
#[derive(Debug, Clone, Copy, PartialEq, Eq)]
pub enum Activation {
    RELU,
    IDENTITY,
}

} // verus!
