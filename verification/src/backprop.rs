//! The mathematical model of a training pass: the error signals that one
//! example sends back through the layers, the updates it stages, and the
//! order in which a pass stages and commits.

use crate::activation::Activation;
use crate::error::NetworkError;
use crate::model::{signal, LayerView, Weights};
use crate::network::NetworkView;
use crate::scalar::{half_spec, two_spec, Scalar};
use vstd::prelude::*;

verus! {

/// A training example as mathematical values: its label and its features.
pub type Example<S> = (u8, Seq<S>);

/// The views of the examples of a batch.
pub open spec fn examples_view<S>(batch: Seq<(u8, Vec<S>)>) -> Seq<Example<S>> {
    Seq::new(batch.len(), |i: int| (batch[i].0, batch[i].1@))
}

/// The rate of the cyclical schedule at `epoch`: a triangle wave between
/// `max_lr`, where a cycle starts, and `min_lr`, half a cycle later.
pub open spec fn schedule<S: Scalar>(min_lr: S, max_lr: S, step_size: S, epoch: S) -> S {
    let step = S::one_spec().add_spec(epoch.div_spec(two_spec::<S>().mul_spec(step_size)));
    let cycle = step.floor_spec();
    let progress = half_spec::<S>().sub_spec(step.sub_spec(cycle)).abs_spec();
    max_lr.sub_spec(
        two_spec::<S>().mul_spec(max_lr.sub_spec(min_lr)).mul_spec(
            half_spec::<S>().sub_spec(progress).abs_spec(),
        ),
    )
}

/// The error signal of an output neuron whose activation is `output`: the
/// slope of the activation function there, times the negated difference of
/// the target and the output. The target is one for the neuron of the label
/// and zero for every other.
pub open spec fn output_delta<S: Scalar>(activation: Activation, output: S, hit: bool) -> S {
    let target = if hit {
        S::one_spec()
    } else {
        S::zero_spec()
    };
    activation.derivative_spec(output).mul_spec(target.sub_spec(output).neg_spec())
}

/// The error signals of the output layer.
pub open spec fn output_deltas<S: Scalar>(
    activation: Activation,
    outputs: Seq<S>,
    label: nat,
) -> Seq<S> {
    Seq::new(outputs.len(), |k: int| output_delta(activation, outputs[k], k == label))
}

/// The error that reaches neuron `j` from the first `n` neurons of the layer
/// after it: the sum, from zero and in the order of the indices, of each of
/// their error signals times the weight that links it to `j`.
pub open spec fn back_sum<S: Scalar>(deltas: Seq<S>, next: Weights<S>, j: int, n: nat) -> S
    decreases n,
{
    if n == 0 {
        S::zero_spec()
    } else {
        back_sum(deltas, next, j, (n - 1) as nat).add_spec(
            deltas[n - 1].mul_spec(next[n - 1].1[j]),
        )
    }
}

/// The error signals of a hidden layer with activations `own`, given the
/// weights and the error signals of the layer after it.
pub open spec fn hidden_deltas<S: Scalar>(
    activation: Activation,
    own: Seq<S>,
    next: Weights<S>,
    next_deltas: Seq<S>,
) -> Seq<S> {
    Seq::new(
        own.len(),
        |j: int|
            activation.derivative_spec(own[j]).mul_spec(
                back_sum(next_deltas, next, j, next_deltas.len()),
            ),
    )
}

/// The error signals of layer `l` for one example.
pub open spec fn deltas<S: Scalar>(
    activation: Activation,
    weights: Seq<Weights<S>>,
    inputs: Seq<S>,
    label: nat,
    l: nat,
) -> Seq<S>
    decreases weights.len() - l,
{
    if l + 1 >= weights.len() {
        output_deltas(activation, signal(activation, weights, inputs, weights.len()), label)
    } else {
        hidden_deltas(
            activation,
            signal(activation, weights, inputs, l + 1),
            weights[l + 1 as int],
            deltas(activation, weights, inputs, label, l + 1),
        )
    }
}

/// The update that one example stages for a layer whose inputs were `inputs`
/// and whose error signals are `deltas`: for each bias its neuron's signal
/// times the rate, for each weight its input times the signal times the rate.
pub open spec fn nudges<S: Scalar>(inputs: Seq<S>, deltas: Seq<S>, rate: S) -> Weights<S> {
    Seq::new(
        deltas.len(),
        |j: int|
            (
                deltas[j].mul_spec(rate),
                Seq::new(inputs.len(), |i: int| inputs[i].mul_spec(deltas[j]).mul_spec(rate)),
            ),
    )
}

impl<S: Scalar> NetworkView<S> {
    /// The network with another learning rate.
    pub open spec fn with_rate(self, rate: S) -> Self {
        NetworkView { learning_rate: rate, ..self }
    }

    /// The network with other layers.
    pub open spec fn with_layers(self, layers: Seq<LayerView<S>>) -> Self {
        NetworkView { layers, ..self }
    }

    /// Why an example is refused, if it is: its features are not as many as
    /// the first layer takes, or else its label names no output neuron.
    pub open spec fn example_error(self, example: Example<S>) -> Option<NetworkError> {
        if !self.accepts(example.1.len()) {
            Some(NetworkError::DimensionMismatch)
        } else if example.0 >= self.output_size() {
            Some(NetworkError::LabelOutOfRange)
        } else {
            None
        }
    }

    /// Whether the network refuses none of the examples of `batch`.
    pub open spec fn accepts_all(self, batch: Seq<Example<S>>) -> bool {
        forall|i: int| 0 <= i < batch.len() ==> self.example_error(#[trigger] batch[i]) is None
    }

    /// The update that `example` stages for layer `l`.
    pub open spec fn layer_nudges(self, example: Example<S>, l: nat) -> Weights<S> {
        nudges(
            signal(self.activation, self.live(), example.1, l),
            deltas(self.activation, self.live(), example.1, example.0 as nat, l),
            self.learning_rate,
        )
    }

    /// The network after `example` has staged its update in every layer.
    pub open spec fn stage_example(self, example: Example<S>) -> Self {
        self.with_layers(
            Seq::new(
                self.layers.len(),
                |l: int| self.layers[l].stage(self.layer_nudges(example, l as nat)),
            ),
        )
    }

    /// The network after `example` has staged its update in the layers from
    /// index `from` on, as the backward pass has it on its way to the first
    /// layer.
    pub open spec fn staged_from(self, example: Example<S>, from: nat) -> Self {
        self.with_layers(
            Seq::new(
                self.layers.len(),
                |l: int|
                    if l >= from {
                        self.layers[l].stage(self.layer_nudges(example, l as nat))
                    } else {
                        self.layers[l]
                    },
            ),
        )
    }

    /// The network after every layer has committed.
    pub open spec fn commit_all(self) -> Self {
        self.with_layers(Seq::new(self.layers.len(), |l: int| self.layers[l].commit()))
    }

    /// The network after the example at index `i` of a pass: the example is
    /// staged, and where `i` is a multiple of the batch size all layers
    /// commit.
    pub open spec fn step(self, example: Example<S>, i: nat) -> Self {
        let staged = self.stage_example(example);
        if i % self.batch_size == 0 {
            staged.commit_all()
        } else {
            staged
        }
    }

    /// The rest of a pass from the example at index `i` on: the examples are
    /// taken in order; the first one that is refused ends the pass with its
    /// error, and leaves the network as the examples before it made it; after
    /// the last example all layers commit.
    pub open spec fn train_from(self, batch: Seq<Example<S>>, i: nat) -> (
        Self,
        Result<(), NetworkError>,
    )
        decreases batch.len() - i,
    {
        if i >= batch.len() {
            (self.commit_all(), Ok(()))
        } else {
            match self.example_error(batch[i as int]) {
                Some(e) => (self, Err(e)),
                None => self.step(batch[i as int], i).train_from(batch, i + 1),
            }
        }
    }

    /// A training pass at `epoch`: the rate is set by the schedule, then the
    /// examples are taken in order.
    pub open spec fn train(self, batch: Seq<Example<S>>, epoch: usize) -> (
        Self,
        Result<(), NetworkError>,
    ) {
        self.with_rate(
            schedule(self.min_lr, self.max_lr, self.step_size, S::from_usize_spec(epoch)),
        ).train_from(batch, 0)
    }
}

} // verus!
