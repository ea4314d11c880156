//! Inference: the forward pass through all layers, and the class that it
//! speaks for.

use crate::error::NetworkError;
use crate::model::{signal, strongest, uniform_width};
use crate::network::{Network, NetworkView};
use crate::scalar::Scalar;
use vstd::prelude::*;

verus! {

impl<S: Scalar> NetworkView<S> {
    /// The activations of the output layer on `inputs`.
    pub open spec fn outputs(self, inputs: Seq<S>) -> Seq<S> {
        signal(self.activation, self.live(), inputs, self.layers.len())
    }

    /// What `classify` returns on `inputs`: the index of the strongest output,
    /// the first one among equals; inputs of another length than the first
    /// layer takes are refused.
    pub open spec fn classify(self, inputs: Seq<S>) -> Result<u8, NetworkError> {
        if self.accepts(inputs.len()) {
            let outputs = self.outputs(inputs);
            Ok(strongest(outputs, outputs.len()) as u8)
        } else {
            Err(NetworkError::DimensionMismatch)
        }
    }
}

/// The strongest of the first `n` values is one of them.
pub proof fn lemma_strongest_in_range<S: Scalar>(values: Seq<S>, n: nat)
    ensures
        0 <= strongest(values, n),
        n >= 1 ==> strongest(values, n) < n,
    decreases n,
{
    if n > 1 {
        lemma_strongest_in_range(values, (n - 1) as nat);
    }
}

impl<S: Scalar> Network<S> {
    /// The activations of the output layer on `inputs`.
    pub fn compute(&self, inputs: Vec<S>) -> (r: Result<Vec<S>, NetworkError>)
        requires
            self.well_formed(),
        ensures
            match r {
                Ok(outputs) => self@.accepts(inputs.len() as nat) && outputs@ == self@.outputs(
                    inputs@,
                ),
                Err(e) => e == NetworkError::DimensionMismatch && !self@.accepts(
                    inputs.len() as nat,
                ),
            },
    {
        let mut current = inputs;
        let mut l: usize = 0;
        while l < self.layers.len()
            invariant
                l <= self.layers.len(),
                self.well_formed(),
                l > 0 ==> self@.accepts(inputs.len() as nat),
                current@ == signal(self@.activation, self@.live(), inputs@, l as nat),
            decreases self.layers.len() - l,
        {
            proof {
                if l > 0 {
                    assert(uniform_width(self@.layers[l as int].neurons, current.len() as nat));
                }
            }
            match self.layers[l].activations(&current, &self.activation) {
                Ok(next) => {
                    current = next;
                },
                Err(e) => {
                    return Err(e);
                },
            }
            l = l + 1;
        }
        Ok(current)
    }

    /// The class of `inputs`: the index of the output neuron that fires most
    /// strongly, the lowest such index where several fire alike.
    pub fn classify(&self, inputs: Vec<S>) -> (r: Result<u8, NetworkError>)
        requires
            self.well_formed(),
        ensures
            r == self@.classify(inputs@),
            r matches Ok(class) ==> class < self@.output_size(),
            r is Ok <==> self@.accepts(inputs.len() as nat),
    {
        let outputs = match self.compute(inputs) {
            Ok(outputs) => outputs,
            Err(e) => {
                return Err(e);
            },
        };
        let mut strongest_neuron: usize = 0;
        let mut current_neuron: usize = 1;
        while current_neuron < outputs.len()
            invariant
                1 <= current_neuron <= outputs.len(),
                strongest_neuron == strongest(outputs@, current_neuron as nat),
                strongest_neuron < current_neuron,
            decreases outputs.len() - current_neuron,
        {
            if outputs[strongest_neuron].lt(outputs[current_neuron]) {
                strongest_neuron = current_neuron;
            }
            current_neuron = current_neuron + 1;
        }
        Ok(strongest_neuron as u8)
    }
}

} // verus!
