//! A layer of neurons with its buffer of staged updates.

use crate::activation::Activation;
use crate::error::NetworkError;
use crate::model::{
    combine, dot_prefix, layer_output, same_shape, share, uniform_width, weighted_sum,
    weights_view, zeros_like, LayerView,
};
use crate::scalar::Scalar;
use vstd::prelude::*;

verus! {

/// A layer: the weights of its neurons, and the updates staged for them.
pub struct Layer<S: Scalar> {
    /// For each neuron its bias and one weight for each input of the layer.
    pub neurons: Vec<(S, Vec<S>)>,
    /// How many updates have been staged since the last commit.
    pub pending_count: usize,
    /// The sum of the updates staged since the last commit, in the shape of
    /// `neurons`.
    pub pending: Vec<(S, Vec<S>)>,
}

impl<S: Scalar> View for Layer<S> {
    type V = LayerView<S>;

    open spec fn view(&self) -> LayerView<S> {
        LayerView {
            neurons: weights_view(self.neurons@),
            pending_count: self.pending_count as nat,
            pending: weights_view(self.pending@),
        }
    }
}

/// Adds to each value of `target` the share of the value of `source` in the
/// same place.
fn add_row<S: Scalar>(target: &mut Vec<S>, source: &Vec<S>, divider: Option<S>)
    requires
        old(target).len() == source.len(),
    ensures
        final(target)@ == Seq::new(
            old(target).len() as nat,
            |i: int| old(target)[i].add_spec(share(source[i], divider)),
        ),
{
    let ghost before = target@;
    let mut i: usize = 0;
    while i < target.len()
        invariant
            i <= target.len(),
            target.len() == before.len(),
            before.len() == source.len(),
            forall|k: int| 0 <= k < i ==> target[k] == before[k].add_spec(share(source[k], divider)),
            forall|k: int| i <= k < target.len() ==> target[k] == before[k],
        decreases target.len() - i,
    {
        let part = match divider {
            Some(d) => source[i].div(d),
            None => source[i],
        };
        let sum = target[i].add(part);
        target[i] = sum;
        i = i + 1;
    }
}

impl<S: Scalar> Layer<S> {
    /// The layer keeps the shape of its live weights in its buffer.
    pub open spec fn well_formed(&self) -> bool {
        self@.well_formed()
    }

    /// Whether the layer keeps the shape of its live weights in its buffer.
    pub fn is_well_formed(&self) -> (r: bool)
        ensures
            r == self.well_formed(),
    {
        if self.pending.len() != self.neurons.len() {
            return false;
        }
        let mut j: usize = 0;
        while j < self.neurons.len()
            invariant
                j <= self.neurons.len(),
                self.pending.len() == self.neurons.len(),
                forall|t: int|
                    0 <= t < j ==> (#[trigger] self@.pending[t]).1.len()
                        == self@.neurons[t].1.len(),
            decreases self.neurons.len() - j,
        {
            if self.pending[j].1.len() != self.neurons[j].1.len() {
                assert(self@.pending[j as int].1.len() != self@.neurons[j as int].1.len());
                return false;
            }
            j = j + 1;
        }
        true
    }

    /// A layer with the given neurons and nothing staged.
    pub fn from(neurons: Vec<(S, Vec<S>)>) -> (r: Layer<S>)
        ensures
            r@ == LayerView::fresh(weights_view(neurons@)),
            r.neurons == neurons,
            r.well_formed(),
    {
        let (pending_count, pending) = Layer::new_updates(&neurons);
        Layer { neurons, pending_count, pending }
    }

    /// The activations of the layer's neurons on `inputs`: for each neuron
    /// the activation function of its weighted sum. Inputs that are not as
    /// long as the weights of every neuron are refused.
    pub fn activations(&self, inputs: &Vec<S>, activation: &Activation) -> (r: Result<
        Vec<S>,
        NetworkError,
    >)
        ensures
            match r {
                Ok(outputs) => uniform_width(self@.neurons, inputs.len() as nat) && outputs@
                    == layer_output(*activation, self@.neurons, inputs@),
                Err(e) => e == NetworkError::DimensionMismatch && !uniform_width(
                    self@.neurons,
                    inputs.len() as nat,
                ),
            },
    {
        let mut outputs: Vec<S> = Vec::new();
        let mut j: usize = 0;
        while j < self.neurons.len()
            invariant
                j <= self.neurons.len(),
                outputs.len() == j,
                forall|t: int|
                    0 <= t < j ==> (#[trigger] self@.neurons[t]).1.len() == inputs.len(),
                forall|t: int|
                    0 <= t < j ==> #[trigger] outputs[t] == activation.apply_spec(
                        weighted_sum(self@.neurons[t], inputs@),
                    ),
            decreases self.neurons.len() - j,
        {
            let weights = &self.neurons[j].1;
            assert(self@.neurons[j as int].1 == weights@);
            if weights.len() != inputs.len() {
                return Err(NetworkError::DimensionMismatch);
            }
            let mut product = S::zero();
            let mut i: usize = 0;
            while i < weights.len()
                invariant
                    i <= weights.len(),
                    weights.len() == inputs.len(),
                    product == dot_prefix(weights@, inputs@, i as nat),
                decreases weights.len() - i,
            {
                product = product.add(weights[i].mul(inputs[i]));
                i = i + 1;
            }
            outputs.push(activation.apply(product.add(self.neurons[j].0)));
            j = j + 1;
        }
        Ok(outputs)
    }

    /// Stages one update: adds each nudge to the staged sum for its bias or
    /// weight, and counts the update. The live weights stay as they are.
    pub fn add_update(&mut self, update: Vec<(S, Vec<S>)>)
        requires
            old(self).well_formed(),
            same_shape(weights_view(update@), old(self)@.neurons),
        ensures
            final(self)@ == old(self)@.stage(weights_view(update@)),
            final(self).well_formed(),
    {
        Layer::add_weights(&mut self.pending, &update, None);
        if self.pending_count < usize::MAX {
            self.pending_count = self.pending_count + 1;
        }
    }

    /// Commits the staged updates: adds their average to the live weights,
    /// then empties the buffer. With nothing staged the live weights stay as
    /// they are.
    pub fn commit_updates(&mut self)
        requires
            old(self).well_formed(),
        ensures
            final(self)@ == old(self)@.commit(),
            final(self).well_formed(),
    {
        if self.pending_count != 0 {
            let divider = S::from_usize(self.pending_count);
            Layer::add_weights(&mut self.neurons, &self.pending, Some(divider));
        }
        let (pending_count, pending) = Layer::new_updates(&self.neurons);
        self.pending_count = pending_count;
        self.pending = pending;
        assert(zeros_like(self@.neurons) =~= zeros_like(old(self)@.neurons));
    }

    /// An empty buffer for the given neurons: no update counted, and a zero
    /// for each bias and weight.
    fn new_updates(neurons: &Vec<(S, Vec<S>)>) -> (r: (usize, Vec<(S, Vec<S>)>))
        ensures
            r.0 == 0,
            weights_view(r.1@) == zeros_like(weights_view(neurons@)),
    {
        let mut zeros: Vec<(S, Vec<S>)> = Vec::new();
        let mut j: usize = 0;
        while j < neurons.len()
            invariant
                j <= neurons.len(),
                zeros.len() == j,
                forall|t: int|
                    0 <= t < j ==> (#[trigger] zeros[t]).0 == S::zero_spec() && zeros[t].1@
                        == Seq::new(neurons[t].1.len() as nat, |i: int| S::zero_spec()),
            decreases neurons.len() - j,
        {
            let mut row: Vec<S> = Vec::new();
            let mut i: usize = 0;
            while i < neurons[j].1.len()
                invariant
                    j < neurons.len(),
                    i <= neurons[j as int].1.len(),
                    row.len() == i,
                    forall|k: int| 0 <= k < i ==> row[k] == S::zero_spec(),
                decreases neurons[j as int].1.len() - i,
            {
                row.push(S::zero());
                i = i + 1;
            }
            zeros.push((S::zero(), row));
            j = j + 1;
        }
        (0, zeros)
    }

    /// Adds to each bias and weight of `targets` the share of the value of
    /// `source` in the same place.
    fn add_weights(
        targets: &mut Vec<(S, Vec<S>)>,
        source: &Vec<(S, Vec<S>)>,
        divider: Option<S>,
    )
        requires
            same_shape(weights_view(old(targets)@), weights_view(source@)),
        ensures
            weights_view(final(targets)@) == combine(
                weights_view(old(targets)@),
                weights_view(source@),
                divider,
            ),
    {
        let ghost before = weights_view(targets@);
        let ghost added = weights_view(source@);
        let mut index: usize = 0;
        while index < targets.len()
            invariant
                index <= targets.len(),
                targets.len() == before.len(),
                same_shape(before, added),
                added == weights_view(source@),
                forall|t: int|
                    0 <= t < index ==> (#[trigger] weights_view(targets@)[t]) == combine(
                        before,
                        added,
                        divider,
                    )[t],
                forall|t: int|
                    index <= t < targets.len() ==> (#[trigger] weights_view(targets@)[t])
                        == before[t],
            decreases targets.len() - index,
        {
            assert(weights_view(targets@)[index as int] == before[index as int]);
            let ghost during = weights_view(targets@);
            let part = match divider {
                Some(d) => source[index].0.div(d),
                None => source[index].0,
            };
            let bias = targets[index].0.add(part);
            targets[index].0 = bias;
            add_row(&mut targets[index].1, &source[index].1, divider);
            proof {
                let after = weights_view(targets@);
                assert forall|t: int| 0 <= t < index implies #[trigger] after[t] == combine(
                    before,
                    added,
                    divider,
                )[t] by {
                    assert(after[t] == during[t]);
                }
                assert forall|t: int| index < t < targets.len() implies #[trigger] after[t]
                    == before[t] by {
                    assert(after[t] == during[t]);
                }
            }
            index = index + 1;
        }
    }
}

} // verus!
