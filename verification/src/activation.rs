//! Activation functions, each paired with its derivative.

use crate::scalar::{max, max_spec, Scalar};
use vstd::prelude::*;

verus! {

/// An activation function together with its derivative.
///
/// The derivative is taken at the function's own output: backpropagation
/// keeps the activations of a forward pass, not the sums they came from.
#[derive(Clone, Copy, Debug, PartialEq, Eq, Structural)]
pub enum Activation {
    /// `1 / (1 + e^-x)`, with derivative `a * (1 - a)`.
    Sigmoid,
    /// `max(x / 100, x)`, with derivative `1` above zero and `0` elsewhere.
    LeakyRelu,
}

/// The slope of the leaky rectifier below zero: one hundredth.
pub open spec fn leak_spec<S: Scalar>() -> S {
    S::one_spec().div_spec(S::from_usize_spec(100))
}

impl Activation {
    /// The logistic function.
    pub fn sigmoid() -> (r: Self)
        ensures
            r == Activation::Sigmoid,
    {
        Activation::Sigmoid
    }

    /// The leaky rectifier.
    pub fn leaky_relu() -> (r: Self)
        ensures
            r == Activation::LeakyRelu,
    {
        Activation::LeakyRelu
    }

    /// The activation of a neuron whose weighted sum is `x`.
    pub open spec fn apply_spec<S: Scalar>(self, x: S) -> S {
        match self {
            Activation::Sigmoid => S::one_spec().div_spec(
                S::one_spec().add_spec(x.neg_spec().exp_spec()),
            ),
            Activation::LeakyRelu => max_spec(leak_spec::<S>().mul_spec(x), x),
        }
    }

    /// The slope of the function where its output is `a`.
    pub open spec fn derivative_spec<S: Scalar>(self, a: S) -> S {
        match self {
            Activation::Sigmoid => a.mul_spec(S::one_spec().sub_spec(a)),
            Activation::LeakyRelu => if S::zero_spec().lt_spec(a) {
                S::one_spec()
            } else {
                S::zero_spec()
            },
        }
    }

    pub fn apply<S: Scalar>(&self, x: S) -> (r: S)
        ensures
            r == self.apply_spec(x),
    {
        match self {
            Activation::Sigmoid => S::one().div(S::one().add(x.neg().exp())),
            Activation::LeakyRelu => {
                let leak = S::one().div(S::from_usize(100));
                max(leak.mul(x), x)
            },
        }
    }

    pub fn derivative_from_output<S: Scalar>(&self, a: S) -> (r: S)
        ensures
            r == self.derivative_spec(a),
    {
        match self {
            Activation::Sigmoid => a.mul(S::one().sub(a)),
            Activation::LeakyRelu => {
                if S::zero().lt(a) {
                    S::one()
                } else {
                    S::zero()
                }
            },
        }
    }
}

} // verus!
