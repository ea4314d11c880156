//! The ways in which a call can be refused.

use vstd::prelude::*;

verus! {

/// Why an inference or training call was refused.
#[derive(Clone, Copy, Debug, PartialEq, Eq, Structural)]
pub enum NetworkError {
    /// A vector handed to a layer is not as long as the weight vectors of
    /// that layer's neurons.
    DimensionMismatch,
    /// A training label names no neuron of the output layer.
    LabelOutOfRange,
}

} // verus!
