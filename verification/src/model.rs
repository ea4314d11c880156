//! The mathematical model of a layer: its weights as sequences, and what
//! a forward pass, a staged update and a commit make of them.

use crate::activation::Activation;
use crate::scalar::Scalar;
use vstd::prelude::*;

verus! {

/// The weights of a layer: for each neuron its bias and one weight for each
/// input.
pub type Weights<S> = Seq<(S, Seq<S>)>;

/// The view of a vector of neurons.
pub open spec fn weights_view<S>(neurons: Seq<(S, Vec<S>)>) -> Weights<S> {
    Seq::new(neurons.len(), |j: int| (neurons[j].0, neurons[j].1@))
}

/// Whether `a` and `b` have as many neurons, and each neuron as many weights.
pub open spec fn same_shape<S>(a: Weights<S>, b: Weights<S>) -> bool {
    &&& a.len() == b.len()
    &&& forall|j: int| 0 <= j < a.len() ==> (#[trigger] a[j]).1.len() == b[j].1.len()
}

/// Whether every neuron has exactly `width` weights.
pub open spec fn uniform_width<S>(neurons: Weights<S>, width: nat) -> bool {
    forall|j: int| 0 <= j < neurons.len() ==> (#[trigger] neurons[j]).1.len() == width
}

/// Weights of the shape of `neurons`, all zero.
pub open spec fn zeros_like<S: Scalar>(neurons: Weights<S>) -> Weights<S> {
    Seq::new(
        neurons.len(),
        |j: int| (S::zero_spec(), Seq::new(neurons[j].1.len(), |i: int| S::zero_spec())),
    )
}

/// The part of `x` that one commit applies: `x` itself, or `x` divided by the
/// divider.
pub open spec fn share<S: Scalar>(x: S, divider: Option<S>) -> S {
    match divider {
        Some(d) => x.div_spec(d),
        None => x,
    }
}

/// `target` with the share of each value of `source` added to the value in
/// the same place.
pub open spec fn combine<S: Scalar>(
    target: Weights<S>,
    source: Weights<S>,
    divider: Option<S>,
) -> Weights<S> {
    Seq::new(
        target.len(),
        |j: int|
            (
                target[j].0.add_spec(share(source[j].0, divider)),
                Seq::new(
                    target[j].1.len(),
                    |i: int| target[j].1[i].add_spec(share(source[j].1[i], divider)),
                ),
            ),
    )
}

/// The sum of the first `n` products `weights[i] * inputs[i]`, added up from
/// zero in the order of the indices.
pub open spec fn dot_prefix<S: Scalar>(weights: Seq<S>, inputs: Seq<S>, n: nat) -> S
    decreases n,
{
    if n == 0 {
        S::zero_spec()
    } else {
        dot_prefix(weights, inputs, (n - 1) as nat).add_spec(
            weights[n - 1].mul_spec(inputs[n - 1]),
        )
    }
}

/// The weighted sum that a neuron forms of `inputs`, bias included.
pub open spec fn weighted_sum<S: Scalar>(neuron: (S, Seq<S>), inputs: Seq<S>) -> S {
    dot_prefix(neuron.1, inputs, neuron.1.len()).add_spec(neuron.0)
}

/// The activations of a layer with the given neurons on `inputs`.
pub open spec fn layer_output<S: Scalar>(
    activation: Activation,
    neurons: Weights<S>,
    inputs: Seq<S>,
) -> Seq<S> {
    Seq::new(neurons.len(), |j: int| activation.apply_spec(weighted_sum(neurons[j], inputs)))
}

/// The signal after the first `n` layers of `weights`: the inputs themselves
/// for `n == 0`, and after that each layer's activations on the signal
/// before it.
pub open spec fn signal<S: Scalar>(
    activation: Activation,
    weights: Seq<Weights<S>>,
    inputs: Seq<S>,
    n: nat,
) -> Seq<S>
    decreases n,
{
    if n == 0 {
        inputs
    } else {
        layer_output(
            activation,
            weights[n - 1],
            signal(activation, weights, inputs, (n - 1) as nat),
        )
    }
}

/// The index that a scan of the first `n` values of `values` holds as the
/// strongest: it starts at the first value and moves on only to a value that
/// the strongest so far is strictly below.
pub open spec fn strongest<S: Scalar>(values: Seq<S>, n: nat) -> int
    decreases n,
{
    if n <= 1 {
        0
    } else {
        let before = strongest(values, (n - 1) as nat);
        if values[before].lt_spec(values[n - 1]) {
            n - 1
        } else {
            before
        }
    }
}

/// What a layer holds: its live weights and the updates staged since the
/// last commit.
pub struct LayerView<S> {
    /// The live weights.
    pub neurons: Weights<S>,
    /// How many updates have been staged since the last commit.
    pub pending_count: nat,
    /// The sum of the staged updates.
    pub pending: Weights<S>,
}

impl<S: Scalar> LayerView<S> {
    /// The staged sums have the shape of the live weights.
    pub open spec fn well_formed(self) -> bool {
        &&& same_shape(self.pending, self.neurons)
        &&& self.pending_count <= usize::MAX
    }

    /// A layer with the given weights and nothing staged.
    pub open spec fn fresh(neurons: Weights<S>) -> Self {
        LayerView { neurons, pending_count: 0, pending: zeros_like(neurons) }
    }

    /// The layer after `nudges` have been staged. The count stops at the
    /// largest `usize`.
    pub open spec fn stage(self, nudges: Weights<S>) -> Self {
        LayerView {
            neurons: self.neurons,
            pending_count: if self.pending_count < usize::MAX {
                self.pending_count + 1
            } else {
                self.pending_count
            },
            pending: combine(self.pending, nudges, None),
        }
    }

    /// The layer after a commit: with anything staged, the average of the
    /// staged updates is added to the live weights; the buffer is empty in
    /// either case.
    pub open spec fn commit(self) -> Self {
        LayerView {
            neurons: if self.pending_count == 0 {
                self.neurons
            } else {
                combine(
                    self.neurons,
                    self.pending,
                    Some(S::from_usize_spec(self.pending_count as usize)),
                )
            },
            pending_count: 0,
            pending: zeros_like(self.neurons),
        }
    }
}

} // verus!
