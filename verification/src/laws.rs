//! What holds of inference, staging and committing for every scalar.

use crate::backprop::{schedule, Example};
use crate::classify::lemma_strongest_in_range;
use crate::model::{same_shape, strongest, zeros_like, LayerView, Weights};
use crate::network::NetworkView;
use crate::scalar::Scalar;
use vstd::prelude::*;

verus! {

/// On a well-formed network, inputs of the length that the first layer takes
/// are classified, and the class is the index of a neuron of the output
/// layer.
pub proof fn lemma_class_names_an_output<S: Scalar>(network: NetworkView<S>, inputs: Seq<S>)
    requires
        network.well_formed(),
        network.accepts(inputs.len()),
    ensures
        network.classify(inputs) is Ok,
        network.classify(inputs)->Ok_0 == strongest(
            network.outputs(inputs),
            network.output_size(),
        ),
        0 <= network.classify(inputs)->Ok_0 < network.output_size(),
{
    let outputs = network.outputs(inputs);
    lemma_strongest_in_range(outputs, outputs.len());
}

/// Inference is a function of the live weights, the activation function and
/// the inputs: call after call, networks that agree in these give the same
/// answer, whatever is staged in them and whatever their settings of
/// training are.
pub proof fn lemma_classify_is_deterministic<S: Scalar>(
    first: NetworkView<S>,
    second: NetworkView<S>,
    inputs: Seq<S>,
)
    requires
        first.live() == second.live(),
        first.activation == second.activation,
    ensures
        first.classify(inputs) == second.classify(inputs),
{
    assert(second.layers.len() == second.live().len());
    if first.layers.len() > 0 {
        assert(second.layers[0].neurons == second.live()[0]);
    }
}

/// The layer after the first `n` of `updates` have been staged, in order.
pub open spec fn stage_all<S: Scalar>(
    layer: LayerView<S>,
    updates: Seq<Weights<S>>,
    n: nat,
) -> LayerView<S>
    decreases n,
{
    if n == 0 {
        layer
    } else {
        stage_all(layer, updates, (n - 1) as nat).stage(updates[n - 1])
    }
}

/// The sum, from zero and in order, of the nudges that the first `n` of
/// `updates` hold for the bias of neuron `j`.
pub open spec fn bias_nudge_sum<S: Scalar>(updates: Seq<Weights<S>>, j: int, n: nat) -> S
    decreases n,
{
    if n == 0 {
        S::zero_spec()
    } else {
        bias_nudge_sum(updates, j, (n - 1) as nat).add_spec(updates[n - 1][j].0)
    }
}

/// The sum, from zero and in order, of the nudges that the first `n` of
/// `updates` hold for weight `i` of neuron `j`.
pub open spec fn weight_nudge_sum<S: Scalar>(
    updates: Seq<Weights<S>>,
    j: int,
    i: int,
    n: nat,
) -> S
    decreases n,
{
    if n == 0 {
        S::zero_spec()
    } else {
        weight_nudge_sum(updates, j, i, (n - 1) as nat).add_spec(updates[n - 1][j].1[i])
    }
}

/// Staging keeps the live weights, counts the updates, and holds for each
/// bias and weight the sum of its nudges.
pub proof fn lemma_stage_all<S: Scalar>(neurons: Weights<S>, updates: Seq<Weights<S>>, n: nat)
    requires
        n <= updates.len(),
        n <= usize::MAX,
        forall|t: int| 0 <= t < updates.len() ==> same_shape(#[trigger] updates[t], neurons),
    ensures
        stage_all(LayerView::fresh(neurons), updates, n).neurons == neurons,
        stage_all(LayerView::fresh(neurons), updates, n).pending_count == n,
        same_shape(stage_all(LayerView::fresh(neurons), updates, n).pending, neurons),
        forall|j: int|
            0 <= j < neurons.len() ==> (#[trigger] stage_all(
                LayerView::fresh(neurons),
                updates,
                n,
            ).pending[j]).0 == bias_nudge_sum(updates, j, n),
        forall|j: int, i: int|
            0 <= j < neurons.len() && 0 <= i < neurons[j].1.len() ==> #[trigger] stage_all(
                LayerView::fresh(neurons),
                updates,
                n,
            ).pending[j].1[i] == weight_nudge_sum(updates, j, i, n),
    decreases n,
{
    if n > 0 {
        lemma_stage_all(neurons, updates, (n - 1) as nat);
    }
}

/// A commit after `n` staged updates moves each bias and each weight by the
/// average of its `n` nudges: by their sum divided by `n`.
pub proof fn lemma_commit_adds_average<S: Scalar>(
    neurons: Weights<S>,
    updates: Seq<Weights<S>>,
    j: int,
    i: int,
)
    requires
        1 <= updates.len() <= usize::MAX,
        forall|t: int| 0 <= t < updates.len() ==> same_shape(#[trigger] updates[t], neurons),
        0 <= j < neurons.len(),
        0 <= i < neurons[j].1.len(),
    ensures
        ({
            let n = updates.len();
            let after = stage_all(LayerView::fresh(neurons), updates, n).commit();
            &&& same_shape(after.neurons, neurons)
            &&& after.neurons[j].0 == neurons[j].0.add_spec(
                bias_nudge_sum(updates, j, n).div_spec(S::from_usize_spec(n as usize)),
            )
            &&& after.neurons[j].1[i] == neurons[j].1[i].add_spec(
                weight_nudge_sum(updates, j, i, n).div_spec(S::from_usize_spec(n as usize)),
            )
            &&& after.pending_count == 0
            &&& after.pending == zeros_like(neurons)
        }),
{
    lemma_stage_all(neurons, updates, updates.len());
}

/// A commit with nothing staged leaves every bias and weight as it is.
pub proof fn lemma_commit_of_nothing<S: Scalar>(layer: LayerView<S>)
    requires
        layer.pending_count == 0,
    ensures
        layer.commit().neurons == layer.neurons,
        layer.commit().pending_count == 0,
{
}

/// A commit of all layers with nothing staged in any of them leaves the
/// weights of the network as they are.
pub proof fn lemma_commit_all_of_nothing<S: Scalar>(network: NetworkView<S>)
    requires
        forall|l: int|
            0 <= l < network.layers.len() ==> (#[trigger] network.layers[l]).pending_count == 0,
    ensures
        network.commit_all().live() == network.live(),
{
}

/// Whether an example is refused, and why, is a matter of the shape of the
/// network alone: a step of training does not change it.
pub proof fn lemma_step_keeps_refusals<S: Scalar>(
    network: NetworkView<S>,
    example: Example<S>,
    i: nat,
    other: Example<S>,
)
    ensures
        network.step(example, i).example_error(other) == network.example_error(other),
        network.step(example, i).layers.len() == network.layers.len(),
{
    let after = network.step(example, i);
    if network.layers.len() > 0 {
        if after.accepts(other.1.len()) {
            assert forall|j: int| 0 <= j < network.layers[0].neurons.len() implies (
            #[trigger] network.layers[0].neurons[j]).1.len() == other.1.len() by {
                assert(after.layers[0].neurons[j].1.len() == other.1.len());
            }
        }
    }
}

/// A pass from the example at index `i` on succeeds exactly if the network
/// refuses none of the examples from there on. Otherwise its error is that
/// of the first example that the network refuses. After a pass that
/// succeeded nothing is left staged.
pub proof fn lemma_train_from_outcome<S: Scalar>(
    network: NetworkView<S>,
    batch: Seq<Example<S>>,
    i: nat,
)
    requires
        i <= batch.len(),
    ensures
        network.train_from(batch, i).1 is Ok <==> forall|k: int|
            i <= k < batch.len() ==> network.example_error(#[trigger] batch[k]) is None,
        network.train_from(batch, i).1 matches Err(e) ==> exists|k: int|
            i <= k < batch.len() && network.example_error(#[trigger] batch[k]) == Some(e)
                && forall|j: int|
                i <= j < k ==> network.example_error(#[trigger] batch[j]) is None,
        network.train_from(batch, i).1 is Ok ==> forall|l: int|
            0 <= l < network.train_from(batch, i).0.layers.len() ==> (
            #[trigger] network.train_from(batch, i).0.layers[l]).pending_count == 0,
        network.train_from(batch, i).0.layers.len() == network.layers.len(),
    decreases batch.len() - i,
{
    if i < batch.len() {
        match network.example_error(batch[i as int]) {
            Some(e) => {},
            None => {
                let next = network.step(batch[i as int], i);
                lemma_train_from_outcome(next, batch, i + 1);
                assert forall|k: int| i < k < batch.len() implies next.example_error(
                    #[trigger] batch[k],
                ) == network.example_error(batch[k]) by {
                    lemma_step_keeps_refusals(network, batch[i as int], i, batch[k]);
                }
                lemma_step_keeps_refusals(network, batch[i as int], i, batch[i as int]);
            },
        }
    }
}

/// A training pass succeeds exactly if the network refuses none of the
/// examples; otherwise its error is that of the first example that the
/// network refuses. The rate is that of the schedule in either case, and
/// after a pass that succeeded nothing is left staged.
pub proof fn lemma_train_outcome<S: Scalar>(
    network: NetworkView<S>,
    batch: Seq<Example<S>>,
    epoch: usize,
)
    ensures
        network.train(batch, epoch).1 is Ok <==> network.accepts_all(batch),
        network.train(batch, epoch).1 matches Err(e) ==> exists|k: int|
            0 <= k < batch.len() && network.example_error(#[trigger] batch[k]) == Some(e)
                && forall|j: int|
                0 <= j < k ==> network.example_error(#[trigger] batch[j]) is None,
        network.train(batch, epoch).1 is Ok ==> forall|l: int|
            0 <= l < network.layers.len() ==> (#[trigger] network.train(
                batch,
                epoch,
            ).0.layers[l]).pending_count == 0,
        network.train(batch, epoch).0.layers.len() == network.layers.len(),
{
    let start = network.with_rate(
        schedule(network.min_lr, network.max_lr, network.step_size, S::from_usize_spec(epoch)),
    );
    lemma_train_from_outcome(start, batch, 0);
}

/// A training pass over no example, on a network with nothing staged,
/// leaves every bias and weight as it is, whatever the batch size.
pub proof fn lemma_train_on_nothing<S: Scalar>(network: NetworkView<S>, epoch: usize)
    requires
        forall|l: int|
            0 <= l < network.layers.len() ==> (#[trigger] network.layers[l]).pending_count == 0,
    ensures
        network.train(Seq::empty(), epoch).1 is Ok,
        network.train(Seq::empty(), epoch).0.live() == network.live(),
{
    let start = network.with_rate(
        schedule(network.min_lr, network.max_lr, network.step_size, S::from_usize_spec(epoch)),
    );
    lemma_commit_all_of_nothing(start);
    assert(start.live() == network.live());
}

} // verus!
