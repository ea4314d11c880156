//! Training: the forward pass that keeps every layer's activations, the
//! backward pass that stages an update in every layer, and the pass over a
//! batch that commits the staged updates.

use crate::backprop::{
    back_sum, deltas, examples_view, hidden_deltas, nudges, output_delta, output_deltas, schedule,
};
use crate::error::NetworkError;
use crate::laws::lemma_train_outcome;
use crate::model::{signal, uniform_width, weights_view};
use crate::network::Network;
use crate::scalar::{half, two, Scalar};
use vstd::prelude::*;

verus! {

/// A vector with the values of `values`.
fn copy_of<S: Scalar>(values: &Vec<S>) -> (r: Vec<S>)
    ensures
        r@ == values@,
{
    let mut copy: Vec<S> = Vec::new();
    let mut i: usize = 0;
    while i < values.len()
        invariant
            i <= values.len(),
            copy.len() == i,
            forall|k: int| 0 <= k < i ==> copy[k] == values[k],
        decreases values.len() - i,
    {
        copy.push(values[i]);
        i = i + 1;
    }
    copy
}

impl<S: Scalar> Network<S> {
    /// Whether `activations` holds the inputs and then the activations of
    /// each layer on them.
    pub open spec fn is_trace(&self, activations: Seq<Vec<S>>, inputs: Seq<S>) -> bool {
        &&& activations.len() == self.layers.len() + 1
        &&& forall|k: int|
            0 <= k <= self.layers.len() ==> (#[trigger] activations[k])@ == signal(
                self@.activation,
                self@.live(),
                inputs,
                k as nat,
            )
    }

    /// The rate of the cyclical schedule at `epoch`.
    pub fn calculate_learning_rate(&self, epoch: S) -> (r: S)
        ensures
            r == schedule(self.min_lr, self.max_lr, self.step_size, epoch),
    {
        let step = S::one().add(epoch.div(two::<S>().mul(self.step_size)));
        let cycle = step.floor();
        let progress = half::<S>().sub(step.sub(cycle)).abs();
        self.max_lr.sub(
            two::<S>().mul(self.max_lr.sub(self.min_lr)).mul(half::<S>().sub(progress).abs()),
        )
    }

    /// The inputs, and after them the activations of each layer in turn.
    fn calculate_activations(&self, inputs: &Vec<S>) -> (r: Result<Vec<Vec<S>>, NetworkError>)
        requires
            self.well_formed(),
        ensures
            match r {
                Ok(activations) => self@.accepts(inputs.len() as nat) && self.is_trace(
                    activations@,
                    inputs@,
                ),
                Err(e) => e == NetworkError::DimensionMismatch && !self@.accepts(
                    inputs.len() as nat,
                ),
            },
    {
        let mut activations: Vec<Vec<S>> = Vec::new();
        activations.push(copy_of(inputs));
        let mut l: usize = 0;
        while l < self.layers.len()
            invariant
                l <= self.layers.len(),
                self.well_formed(),
                activations.len() == l + 1,
                l > 0 ==> self@.accepts(inputs.len() as nat),
                forall|k: int|
                    0 <= k <= l ==> (#[trigger] activations[k])@ == signal(
                        self@.activation,
                        self@.live(),
                        inputs@,
                        k as nat,
                    ),
            decreases self.layers.len() - l,
        {
            proof {
                if l > 0 {
                    assert(uniform_width(
                        self@.layers[l as int].neurons,
                        activations[l as int].len() as nat,
                    ));
                }
            }
            let output = match self.layers[l].activations(&activations[l], &self.activation) {
                Ok(output) => output,
                Err(e) => {
                    return Err(e);
                },
            };
            activations.push(output);
            l = l + 1;
        }
        Ok(activations)
    }

    /// The error signals of the output layer for the class `target`.
    fn calculate_deltas(&self, target: usize, outputs: &Vec<S>) -> (r: Vec<S>)
        ensures
            r@ == output_deltas(self.activation, outputs@, target as nat),
    {
        let mut partial_deltas: Vec<S> = Vec::new();
        let mut neuron: usize = 0;
        while neuron < outputs.len()
            invariant
                neuron <= outputs.len(),
                partial_deltas.len() == neuron,
                forall|k: int|
                    0 <= k < neuron ==> partial_deltas[k] == output_delta(
                        self.activation,
                        outputs[k],
                        k == target,
                    ),
            decreases outputs.len() - neuron,
        {
            let output = outputs[neuron];
            let goal = if target == neuron {
                S::one()
            } else {
                S::zero()
            };
            partial_deltas.push(
                self.activation.derivative_from_output(output).mul(goal.sub(output).neg()),
            );
            neuron = neuron + 1;
        }
        partial_deltas
    }

    /// The update that one example stages for the layer at `layer_index`.
    /// The layer's error signals are left in `new_partial_deltas`: for the
    /// output layer they are `partial_deltas`; for another layer they come
    /// from `partial_deltas`, the signals of the layer after it.
    fn calculate_nudges(
        &self,
        layer_index: usize,
        partial_deltas: &Vec<S>,
        activations: &Vec<Vec<S>>,
        new_partial_deltas: &mut Vec<S>,
    ) -> (r: Vec<(S, Vec<S>)>)
        requires
            layer_index < self.layers.len(),
            activations.len() == self.layers.len() + 1,
            activations[layer_index + 1].len() == self.layers[layer_index as int].neurons.len(),
            old(new_partial_deltas).len() == 0,
            layer_index + 1 == self.layers.len() ==> partial_deltas.len()
                == self.layers[layer_index as int].neurons.len(),
            layer_index + 1 < self.layers.len() ==> partial_deltas.len() == self.layers[layer_index
                + 1].neurons.len() && uniform_width(
                self.layers[layer_index + 1]@.neurons,
                self.layers[layer_index as int].neurons.len() as nat,
            ),
        ensures
            final(new_partial_deltas)@ == if layer_index + 1 == self.layers.len() {
                partial_deltas@
            } else {
                hidden_deltas(
                    self.activation,
                    activations[layer_index + 1]@,
                    self.layers[layer_index + 1]@.neurons,
                    partial_deltas@,
                )
            },
            weights_view(r@) == nudges(
                activations[layer_index as int]@,
                final(new_partial_deltas)@,
                self.learning_rate,
            ),
    {
        let ghost expected = if layer_index + 1 == self.layers.len() {
            partial_deltas@
        } else {
            hidden_deltas(
                self.activation,
                activations[layer_index + 1]@,
                self.layers[layer_index + 1]@.neurons,
                partial_deltas@,
            )
        };
        let count = self.layers[layer_index].neurons.len();
        let previous = &activations[layer_index];
        let mut all_nudges: Vec<(S, Vec<S>)> = Vec::new();
        let mut neuron_index: usize = 0;
        while neuron_index < count
            invariant
                neuron_index <= count,
                count == self.layers[layer_index as int].neurons.len(),
                count == expected.len(),
                layer_index < self.layers.len(),
                activations.len() == self.layers.len() + 1,
                activations[layer_index + 1].len() == count,
                previous == activations[layer_index as int],
                layer_index + 1 == self.layers.len() ==> partial_deltas.len() == count,
                layer_index + 1 < self.layers.len() ==> partial_deltas.len()
                    == self.layers[layer_index + 1].neurons.len() && uniform_width(
                    self.layers[layer_index + 1]@.neurons,
                    count as nat,
                ),
                expected == if layer_index + 1 == self.layers.len() {
                    partial_deltas@
                } else {
                    hidden_deltas(
                        self.activation,
                        activations[layer_index + 1]@,
                        self.layers[layer_index + 1]@.neurons,
                        partial_deltas@,
                    )
                },
                new_partial_deltas.len() == neuron_index,
                all_nudges.len() == neuron_index,
                forall|j: int| 0 <= j < neuron_index ==> new_partial_deltas[j] == expected[j],
                forall|j: int|
                    0 <= j < neuron_index ==> (#[trigger] weights_view(all_nudges@)[j]) == nudges(
                        previous@,
                        expected,
                        self.learning_rate,
                    )[j],
            decreases count - neuron_index,
        {
            let new_partial_delta = if layer_index == self.layers.len() - 1 {
                partial_deltas[neuron_index]
            } else {
                let neurons = &self.layers[layer_index + 1].neurons;
                let ghost next = self.layers[layer_index + 1]@.neurons;
                let own = activations[layer_index + 1][neuron_index];
                let activation_derivative = self.activation.derivative_from_output(own);
                let mut sum = S::zero();
                let mut delta_index: usize = 0;
                while delta_index < partial_deltas.len()
                    invariant
                        delta_index <= partial_deltas.len(),
                        partial_deltas.len() == neurons.len(),
                        next == weights_view(neurons@),
                        uniform_width(next, count as nat),
                        neuron_index < count,
                        sum == back_sum(
                            partial_deltas@,
                            next,
                            neuron_index as int,
                            delta_index as nat,
                        ),
                    decreases partial_deltas.len() - delta_index,
                {
                    assert(next[delta_index as int].1 == neurons[delta_index as int].1@);
                    sum = sum.add(
                        partial_deltas[delta_index].mul(neurons[delta_index].1[neuron_index]),
                    );
                    delta_index = delta_index + 1;
                }
                activation_derivative.mul(sum)
            };
            new_partial_deltas.push(new_partial_delta);
            let mut weight_deltas: Vec<S> = Vec::new();
            let mut i: usize = 0;
            while i < previous.len()
                invariant
                    i <= previous.len(),
                    weight_deltas.len() == i,
                    forall|k: int|
                        0 <= k < i ==> weight_deltas[k] == previous[k].mul_spec(
                            new_partial_delta,
                        ).mul_spec(self.learning_rate),
                decreases previous.len() - i,
            {
                weight_deltas.push(previous[i].mul(new_partial_delta).mul(self.learning_rate));
                i = i + 1;
            }
            let ghost earlier = weights_view(all_nudges@);
            all_nudges.push((new_partial_delta.mul(self.learning_rate), weight_deltas));
            proof {
                let built = weights_view(all_nudges@);
                let wanted = nudges(previous@, expected, self.learning_rate);
                assert forall|j: int| 0 <= j < neuron_index implies #[trigger] built[j]
                    == wanted[j] by {
                    assert(built[j] == earlier[j]);
                }
            }
            neuron_index = neuron_index + 1;
        }
        all_nudges
    }

    /// Stages one example's update in the layer at `layer_index`, and returns
    /// the layer's error signals, for the layer before it.
    fn update_layer_weights(
        &mut self,
        layer_index: usize,
        partial_deltas: Vec<S>,
        activations: &Vec<Vec<S>>,
    ) -> (r: Vec<S>)
        requires
            old(self).well_formed(),
            layer_index < old(self).layers.len(),
            activations.len() == old(self).layers.len() + 1,
            uniform_width(
                old(self)@.layers[layer_index as int].neurons,
                activations[layer_index as int].len() as nat,
            ),
            activations[layer_index + 1].len() == old(self)@.layers[layer_index as int].neurons.len(),
            layer_index + 1 == old(self).layers.len() ==> partial_deltas.len() == old(
                self,
            )@.layers[layer_index as int].neurons.len(),
            layer_index + 1 < old(self).layers.len() ==> partial_deltas.len() == old(
                self,
            )@.layers[layer_index + 1].neurons.len(),
        ensures
            r@ == if layer_index + 1 == old(self).layers.len() {
                partial_deltas@
            } else {
                hidden_deltas(
                    old(self)@.activation,
                    activations[layer_index + 1]@,
                    old(self)@.layers[layer_index + 1].neurons,
                    partial_deltas@,
                )
            },
            final(self)@ == old(self)@.with_layers(
                old(self)@.layers.update(
                    layer_index as int,
                    old(self)@.layers[layer_index as int].stage(
                        nudges(activations[layer_index as int]@, r@, old(self)@.learning_rate),
                    ),
                ),
            ),
            final(self).well_formed(),
    {
        let ghost before = self@;
        let mut new_partial_deltas: Vec<S> = Vec::new();
        let update = self.calculate_nudges(
            layer_index,
            &partial_deltas,
            activations,
            &mut new_partial_deltas,
        );
        self.layers[layer_index].add_update(update);
        proof {
            let staged = before.layers[layer_index as int].stage(
                nudges(activations[layer_index as int]@, new_partial_deltas@, before.learning_rate),
            );
            assert(self@.layers =~= before.layers.update(layer_index as int, staged));
        }
        new_partial_deltas
    }

    /// Commits the staged updates of every layer.
    fn commit_layers(&mut self)
        requires
            old(self).well_formed(),
        ensures
            final(self)@ == old(self)@.commit_all(),
            final(self).well_formed(),
    {
        let ghost before = self@;
        let mut l: usize = 0;
        while l < self.layers.len()
            invariant
                l <= self.layers.len(),
                self.layers.len() == before.layers.len(),
                before.well_formed(),
                self@.with_layers(before.layers) == before,
                forall|k: int| 0 <= k < l ==> (#[trigger] self.layers[k])@ == before.layers[k].commit(),
                forall|k: int| l <= k < self.layers.len() ==> (#[trigger] self.layers[k])@ == before.layers[k],
            decreases self.layers.len() - l,
        {
            self.layers[l].commit_updates();
            l = l + 1;
        }
        assert(self@.layers =~= before.commit_all().layers);
    }

    /// Sends the error of one example back through the layers, from the
    /// output layer to the first, and stages in each the update that the
    /// example asks for. `activations` are those of the forward pass on the
    /// example's features, and `target` is its label.
    fn backpropagate(&mut self, target: usize, activations: &Vec<Vec<S>>)
        requires
            old(self).well_formed(),
            old(self).is_trace(activations@, activations[0]@),
            old(self)@.accepts(activations[0].len() as nat),
            target < old(self)@.output_size(),
        ensures
            final(self)@ == old(self)@.stage_example((target as u8, activations[0]@)),
            final(self).well_formed(),
    {
        let ghost before = self@;
        let ghost example = (target as u8, activations[0]@);
        let layers_count = self.layers.len();
        let mut partial_deltas = self.calculate_deltas(target, &activations[layers_count]);
        let mut layer: usize = layers_count;
        assert(self@ == before.staged_from(example, layer as nat)) by {
            assert(self@.layers =~= before.staged_from(example, layer as nat).layers);
        }
        while layer > 0
            invariant
                layer <= layers_count,
                layers_count == before.layers.len(),
                before.well_formed(),
                self.well_formed(),
                before.accepts(example.1.len()),
                example == (target as u8, activations[0]@),
                target < 256,
                self@ == before.staged_from(example, layer as nat),
                activations.len() == layers_count + 1,
                forall|k: int|
                    0 <= k <= layers_count ==> (#[trigger] activations[k])@ == signal(
                        before.activation,
                        before.live(),
                        example.1,
                        k as nat,
                    ),
                partial_deltas@ == deltas(
                    before.activation,
                    before.live(),
                    example.1,
                    target as nat,
                    if layer == layers_count {
                        (layer - 1) as nat
                    } else {
                        layer as nat
                    },
                ),
            decreases layer,
        {
            layer = layer - 1;
            partial_deltas = self.update_layer_weights(layer, partial_deltas, activations);
            assert(self@.layers =~= before.staged_from(example, layer as nat).layers);
        }
        assert(self@.layers =~= before.stage_example(example).layers);
    }

    /// One training pass over `training_data` at `epoch`.
    ///
    /// The learning rate is set by the cyclical schedule. Then the examples
    /// are taken in order: each one stages an update in every layer, and
    /// after each example whose index is a multiple of the batch size all
    /// layers commit. After the last example all layers commit once more.
    ///
    /// An example whose features are not as many as the first layer takes, or
    /// whose label names no output neuron, ends the pass with an error. What
    /// the examples before it staged and committed stays.
    pub fn train(&mut self, training_data: &Vec<(u8, Vec<S>)>, epoch: usize) -> (r: Result<
        (),
        NetworkError,
    >)
        requires
            old(self).well_formed(),
            training_data.len() > 0 ==> old(self).batch_size > 0,
        ensures
            final(self)@ == old(self)@.train(examples_view(training_data@), epoch).0,
            r == old(self)@.train(examples_view(training_data@), epoch).1,
            r is Ok <==> old(self)@.accepts_all(examples_view(training_data@)),
            final(self).well_formed(),
    {
        let ghost batch = examples_view(training_data@);
        let ghost goal = self@.train(batch, epoch);
        proof {
            lemma_train_outcome(self@, batch, epoch);
        }
        self.learning_rate = self.calculate_learning_rate(S::from_usize(epoch));
        let mut i: usize = 0;
        while i < training_data.len()
            invariant
                i <= training_data.len(),
                self.well_formed(),
                training_data.len() > 0 ==> self.batch_size > 0,
                batch == examples_view(training_data@),
                goal == old(self)@.train(batch, epoch),
                goal.1 is Ok <==> old(self)@.accepts_all(batch),
                self@.train_from(batch, i as nat) == goal,
            decreases training_data.len() - i,
        {
            let ghost before = self@;
            let ghost example = batch[i as int];
            let target = training_data[i].0 as usize;
            let inputs = &training_data[i].1;
            let activations = match self.calculate_activations(inputs) {
                Ok(activations) => activations,
                Err(e) => {
                    return Err(e);
                },
            };
            let layers_count = self.layers.len();
            if target >= activations[layers_count].len() {
                return Err(NetworkError::LabelOutOfRange);
            }
            self.backpropagate(target, &activations);
            if i % self.batch_size == 0 {
                self.commit_layers();
            }
            i = i + 1;
        }
        self.commit_layers();
        Ok(())
    }
}

} // verus!
