//! The network: its layers in order, the activation function they share, and
//! the settings of training.

use crate::activation::Activation;
use crate::layer::Layer;
use crate::model::{uniform_width, weights_view, LayerView, Weights};
use crate::scalar::{two, two_spec, Scalar};
use vstd::prelude::*;

verus! {

/// A feedforward network. The first layer takes the input vector, and the
/// last has one neuron for each class.
pub struct Network<S: Scalar> {
    /// The layers, from the one that takes the inputs to the output layer.
    pub layers: Vec<Layer<S>>,
    /// The activation function of every neuron.
    pub activation: Activation,
    /// The rate of the latest training pass.
    pub learning_rate: S,
    /// After how many examples the staged updates are committed.
    pub batch_size: usize,
    /// The lowest rate of the cyclical schedule.
    pub min_lr: S,
    /// The highest rate of the cyclical schedule.
    pub max_lr: S,
    /// The number of epochs in a quarter of a cycle of the schedule.
    pub step_size: S,
}

/// What a network holds, as mathematical values.
pub struct NetworkView<S> {
    /// The layers, from the one that takes the inputs to the output layer.
    pub layers: Seq<LayerView<S>>,
    /// The activation function of every neuron.
    pub activation: Activation,
    /// The rate of the latest training pass.
    pub learning_rate: S,
    /// After how many examples the staged updates are committed.
    pub batch_size: nat,
    /// The lowest rate of the cyclical schedule.
    pub min_lr: S,
    /// The highest rate of the cyclical schedule.
    pub max_lr: S,
    /// The number of epochs in a quarter of a cycle of the schedule.
    pub step_size: S,
}

/// The rate that a network starts with, and both ends of its schedule: one
/// fifth.
pub open spec fn initial_rate_spec<S: Scalar>() -> S {
    S::one_spec().div_spec(S::from_usize_spec(5))
}

impl<S: Scalar> NetworkView<S> {
    /// The network with the given live weights, nothing staged, and the
    /// settings that a new network has.
    pub open spec fn initial(activation: Activation, weights: Seq<Weights<S>>) -> Self {
        NetworkView {
            layers: Seq::new(weights.len(), |l: int| LayerView::fresh(weights[l])),
            activation,
            learning_rate: initial_rate_spec::<S>(),
            batch_size: 1,
            min_lr: initial_rate_spec::<S>(),
            max_lr: initial_rate_spec::<S>(),
            step_size: S::one_spec(),
        }
    }

    /// The live weights of all layers.
    pub open spec fn live(self) -> Seq<Weights<S>> {
        Seq::new(self.layers.len(), |l: int| self.layers[l].neurons)
    }

    /// The number of neurons of the output layer.
    pub open spec fn output_size(self) -> nat {
        if self.layers.len() == 0 {
            0
        } else {
            self.layers.last().neurons.len()
        }
    }

    /// Whether the first layer takes inputs of length `n`.
    pub open spec fn accepts(self, n: nat) -> bool {
        self.layers.len() > 0 && uniform_width(self.layers[0].neurons, n)
    }

    /// There is a layer; each layer's buffer has the shape of its weights;
    /// each neuron after the first layer has one weight for each neuron of
    /// the layer before; and the output layer has at least one neuron and at
    /// most 256, so that a `u8` names each class.
    pub open spec fn well_formed(self) -> bool {
        &&& self.layers.len() >= 1
        &&& forall|l: int| 0 <= l < self.layers.len() ==> (#[trigger] self.layers[l]).well_formed()
        &&& forall|l: int|
            1 <= l < self.layers.len() ==> uniform_width(
                (#[trigger] self.layers[l]).neurons,
                self.layers[l - 1].neurons.len(),
            )
        &&& 1 <= self.output_size() <= 256
    }
}

impl<S: Scalar> View for Network<S> {
    type V = NetworkView<S>;

    open spec fn view(&self) -> NetworkView<S> {
        NetworkView {
            layers: Seq::new(self.layers@.len(), |l: int| self.layers@[l]@),
            activation: self.activation,
            learning_rate: self.learning_rate,
            batch_size: self.batch_size as nat,
            min_lr: self.min_lr,
            max_lr: self.max_lr,
            step_size: self.step_size,
        }
    }
}

/// Whether a network with the live weights `weights` is well formed: there
/// is a layer, each neuron after the first layer has one weight for each
/// neuron of the layer before, and the last layer has between one and 256
/// neurons.
pub open spec fn chained<S>(weights: Seq<Weights<S>>) -> bool {
    &&& weights.len() >= 1
    &&& forall|l: int|
        1 <= l < weights.len() ==> uniform_width(#[trigger] weights[l], weights[l - 1].len())
    &&& 1 <= weights.last().len() <= 256
}

/// A new network is well formed exactly if its weights are chained.
pub proof fn lemma_initial_well_formed<S: Scalar>(activation: Activation, weights: Seq<Weights<S>>)
    ensures
        NetworkView::initial(activation, weights).well_formed() == chained(weights),
{
    let net = NetworkView::<S>::initial(activation, weights);
    if chained(weights) {
        assert forall|l: int| 1 <= l < net.layers.len() implies uniform_width(
            (#[trigger] net.layers[l]).neurons,
            net.layers[l - 1].neurons.len(),
        ) by {
            assert(uniform_width(weights[l], weights[l - 1].len()));
        }
    }
    if net.well_formed() {
        assert forall|l: int| 1 <= l < weights.len() implies uniform_width(
            #[trigger] weights[l],
            weights[l - 1].len(),
        ) by {
            assert(uniform_width(net.layers[l].neurons, net.layers[l - 1].neurons.len()));
        }
    }
}

/// The number of weights in the first `n` layers of a network built to
/// `schema`, which gives the number of inputs and then the number of neurons
/// of each layer.
pub open spec fn weight_count(schema: Seq<u8>, n: nat) -> nat
    decreases n,
{
    if n == 0 {
        0
    } else {
        weight_count(schema, (n - 1) as nat) + (schema[n as int] as nat) * (schema[n - 1] as nat)
    }
}

/// The number of weights in a network built to `schema`.
pub open spec fn total_weights(schema: Seq<u8>) -> nat {
    if schema.len() == 0 {
        0
    } else {
        weight_count(schema, (schema.len() - 1) as nat)
    }
}

/// The weight made of a draw from the unit interval: the draw stretched to
/// the interval from minus one to one.
pub open spec fn initial_weight<S: Scalar>(draw: S) -> S {
    draw.mul_spec(two_spec::<S>()).sub_spec(S::one_spec())
}

/// A layer of `count` neurons with `width` weights each, made of the draws
/// from index `start` on, neuron after neuron. Each bias is zero.
pub open spec fn drawn_layer<S: Scalar>(
    draws: Seq<S>,
    start: nat,
    count: nat,
    width: nat,
) -> Weights<S> {
    Seq::new(
        count,
        |j: int|
            (
                S::zero_spec(),
                Seq::new(width, |k: int| initial_weight(draws[start + j * width + k])),
            ),
    )
}

/// The layers of a network built to `schema` from `draws`, layer after layer.
pub open spec fn drawn_layers<S: Scalar>(schema: Seq<u8>, draws: Seq<S>) -> Seq<Weights<S>> {
    Seq::new(
        if schema.len() == 0 {
            0
        } else {
            (schema.len() - 1) as nat
        },
        |l: int|
            drawn_layer(
                draws,
                weight_count(schema, l as nat),
                schema[l + 1] as nat,
                schema[l] as nat,
            ),
    )
}

/// Later layers come after more weights.
pub proof fn lemma_weight_count_monotone(schema: Seq<u8>, a: nat, b: nat)
    requires
        a <= b,
    ensures
        weight_count(schema, a) <= weight_count(schema, b),
    decreases b,
{
    if a < b {
        lemma_weight_count_monotone(schema, a, (b - 1) as nat);
    }
}

/// The views of the layers of a schema given as neurons.
pub open spec fn schema_view<S>(layers: Seq<Vec<(S, Vec<S>)>>) -> Seq<Weights<S>> {
    Seq::new(layers.len(), |l: int| weights_view(layers[l]@))
}

impl<S: Scalar> Network<S> {
    /// See [`NetworkView::well_formed`].
    pub open spec fn well_formed(&self) -> bool {
        self@.well_formed()
    }

    /// The network with the given neurons, layer by layer, each neuron given
    /// as its bias and its weights. Nothing is staged, the batch size is one,
    /// and the rate and both ends of its schedule are one fifth.
    pub fn from(activation: Activation, layers: Vec<Vec<(S, Vec<S>)>>) -> (r: Self)
        ensures
            r@ == NetworkView::initial(activation, schema_view(layers@)),
            r.well_formed() == chained(schema_view(layers@)),
    {
        let ghost schema = layers@;
        let mut built: Vec<Layer<S>> = Vec::new();
        for neurons in it: layers
            invariant
                it.seq() == schema,
                built.len() == it.index(),
                forall|l: int|
                    0 <= l < built.len() ==> (#[trigger] built[l])@ == LayerView::fresh(
                        weights_view(schema[l]@),
                    ),
        {
            built.push(Layer::from(neurons));
        }
        let rate = S::one().div(S::from_usize(5));
        let r = Network {
            layers: built,
            activation,
            learning_rate: rate,
            batch_size: 1,
            min_lr: rate,
            max_lr: rate,
            step_size: S::one(),
        };
        assert(r@.layers =~= NetworkView::initial(activation, schema_view(schema)).layers);
        proof {
            lemma_initial_well_formed(activation, schema_view(schema));
        }
        r
    }

    /// A network built to `schema`, which gives the number of inputs and then
    /// the number of neurons of each layer. Every bias is zero. The weights
    /// are made of `draws`, values from the unit interval, in the order of
    /// the layers, of the neurons in a layer, and of the weights of a neuron:
    /// each draw is stretched to the interval from minus one to one. There
    /// must be exactly one draw for each weight.
    pub fn new(activation: Activation, schema: Vec<u8>, draws: Vec<S>) -> (r: Option<Self>)
        ensures
            match r {
                Some(network) => draws.len() == total_weights(schema@) && network@
                    == NetworkView::initial(activation, drawn_layers(schema@, draws@)),
                None => draws.len() != total_weights(schema@),
            },
            r matches Some(network) ==> network.well_formed() == (schema.len() >= 2
                && schema[schema.len() - 1] >= 1),
    {
        let mut pos: usize = 0;
        let mut layers: Vec<Vec<(S, Vec<S>)>> = Vec::new();
        let mut i: usize = 1;
        while i < schema.len()
            invariant
                i >= 1,
                i <= schema.len() || i == 1,
                layers.len() == i - 1,
                pos == weight_count(schema@, (i - 1) as nat),
                pos <= draws.len(),
                forall|l: int|
                    0 <= l < i - 1 ==> weights_view((#[trigger] layers[l])@) == drawn_layer(
                        draws@,
                        weight_count(schema@, l as nat),
                        schema[l + 1] as nat,
                        schema[l] as nat,
                    ),
            decreases schema.len() - i,
        {
            let count = schema[i];
            let width = schema[i - 1];
            let ghost start = pos as nat;
            let ghost wanted = drawn_layer(draws@, start, count as nat, width as nat);
            let mut layer: Vec<(S, Vec<S>)> = Vec::new();
            let mut j: u8 = 0;
            while j < count
                invariant
                    j <= count,
                    1 <= i < schema.len(),
                    count == schema[i as int],
                    width == schema[i - 1],
                    start == weight_count(schema@, (i - 1) as nat),
                    wanted == drawn_layer(draws@, start, count as nat, width as nat),
                    layer.len() == j,
                    pos == start + j * width,
                    pos <= draws.len(),
                    forall|t: int| 0 <= t < j ==> (#[trigger] weights_view(layer@)[t]) == wanted[t],
                decreases count - j,
            {
                let mut weights: Vec<S> = Vec::new();
                let mut k: u8 = 0;
                while k < width
                    invariant
                        k <= width,
                        j < count,
                        1 <= i < schema.len(),
                        count == schema[i as int],
                        width == schema[i - 1],
                        start == weight_count(schema@, (i - 1) as nat),
                        weights.len() == k,
                        pos == start + j * width + k,
                        pos <= draws.len(),
                        forall|t: int|
                            0 <= t < k ==> weights[t] == initial_weight(
                                draws[start + j * width + t],
                            ),
                    decreases width - k,
                {
                    if pos >= draws.len() {
                        proof {
                            assert(j * width + k < count * width) by (nonlinear_arith)
                                requires
                                    0 <= j < count,
                                    0 <= k < width,
                            ;
                            lemma_weight_count_monotone(schema@, i as nat, (schema.len() - 1) as nat);
                        }
                        return None;
                    }
                    weights.push(draws[pos].mul(two::<S>()).sub(S::one()));
                    pos = pos + 1;
                    k = k + 1;
                }
                let ghost earlier = weights_view(layer@);
                layer.push((S::zero(), weights));
                proof {
                    let built = weights_view(layer@);
                    assert forall|t: int| 0 <= t < j implies #[trigger] built[t] == wanted[t] by {
                        assert(built[t] == earlier[t]);
                    }
                    assert((j + 1) * width == j * width + width) by (nonlinear_arith);
                }
                j = j + 1;
            }
            layers.push(layer);
            i = i + 1;
        }
        if pos != draws.len() {
            return None;
        }
        assert(schema_view(layers@) =~= drawn_layers(schema@, draws@));
        Some(Network::from(activation, layers))
    }

    /// Whether the network is well formed.
    pub fn is_well_formed(&self) -> (r: bool)
        ensures
            r == self.well_formed(),
    {
        let count = self.layers.len();
        if count == 0 {
            return false;
        }
        let outputs = self.layers[count - 1].neurons.len();
        if outputs < 1 || outputs > 256 {
            return false;
        }
        let mut l: usize = 0;
        while l < count
            invariant
                l <= count,
                count == self.layers.len(),
                forall|t: int| 0 <= t < count ==> #[trigger] self@.layers[t] == self.layers[t]@,
                forall|t: int| 0 <= t < l ==> (#[trigger] self@.layers[t]).well_formed(),
                forall|t: int|
                    1 <= t < l ==> uniform_width(
                        (#[trigger] self@.layers[t]).neurons,
                        self@.layers[t - 1].neurons.len(),
                    ),
            decreases count - l,
        {
            if !self.layers[l].is_well_formed() {
                assert(!self@.layers[l as int].well_formed());
                return false;
            }
            if l > 0 {
                let width = self.layers[l - 1].neurons.len();
                let neurons = &self.layers[l].neurons;
                let mut j: usize = 0;
                while j < neurons.len()
                    invariant
                        j <= neurons.len(),
                        0 < l < count,
                        count == self.layers.len(),
                        self@.layers[l as int].neurons == weights_view(neurons@),
                        self@.layers[l - 1].neurons.len() == width,
                        forall|t: int|
                            0 <= t < j ==> (#[trigger] weights_view(neurons@)[t]).1.len() == width,
                    decreases neurons.len() - j,
                {
                    if neurons[j].1.len() != width {
                        assert(weights_view(neurons@)[j as int].1.len() != width);
                        return false;
                    }
                    j = j + 1;
                }
            }
            l = l + 1;
        }
        true
    }

    /// The number of draws that [`Network::new`] takes for `schema`: one for
    /// each weight. There is none where that number is beyond `usize`.
    pub fn draws_needed(schema: &Vec<u8>) -> (r: Option<usize>)
        ensures
            match r {
                Some(n) => n == total_weights(schema@),
                None => total_weights(schema@) > usize::MAX,
            },
    {
        let mut total: usize = 0;
        let mut i: usize = 1;
        while i < schema.len()
            invariant
                i >= 1,
                i <= schema.len() || i == 1,
                total == weight_count(schema@, (i - 1) as nat),
            decreases schema.len() - i,
        {
            let count: u32 = schema[i] as u32;
            let width: u32 = schema[i - 1] as u32;
            assert(count * width <= 255 * 255) by (nonlinear_arith)
                requires
                    0 <= count <= 255,
                    0 <= width <= 255,
            ;
            let layer: u32 = count * width;
            match total.checked_add(layer as usize) {
                Some(sum) => {
                    total = sum;
                },
                None => {
                    proof {
                        lemma_weight_count_monotone(schema@, i as nat, (schema.len() - 1) as nat);
                    }
                    return None;
                },
            }
            i = i + 1;
        }
        Some(total)
    }
}

} // verus!
