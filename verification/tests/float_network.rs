//! The network on double-precision floats.

use neural_network::activation::Activation;
use neural_network::error::NetworkError;
use neural_network::layer::Layer;
use neural_network::network::Network;
use neural_network::scalar::Scalar;
use rand::rngs::StdRng;
use rand::{Rng, SeedableRng};

/// A double as a scalar of the network.
#[derive(Clone, Copy, Debug, PartialEq)]
struct F(f64);

impl Scalar for F {
    fn zero_spec() -> Self {
        F(0.0)
    }
    fn one_spec() -> Self {
        F(1.0)
    }
    fn from_usize_spec(n: usize) -> Self {
        F(n as f64)
    }
    fn add_spec(self, rhs: Self) -> Self {
        F(self.0 + rhs.0)
    }
    fn sub_spec(self, rhs: Self) -> Self {
        F(self.0 - rhs.0)
    }
    fn mul_spec(self, rhs: Self) -> Self {
        F(self.0 * rhs.0)
    }
    fn div_spec(self, rhs: Self) -> Self {
        F(self.0 / rhs.0)
    }
    fn neg_spec(self) -> Self {
        F(-self.0)
    }
    fn abs_spec(self) -> Self {
        F(self.0.abs())
    }
    fn floor_spec(self) -> Self {
        F(self.0.floor())
    }
    fn exp_spec(self) -> Self {
        F(std::f64::consts::E.powf(self.0))
    }
    fn lt_spec(self, rhs: Self) -> bool {
        self.0 < rhs.0
    }
    fn zero() -> Self {
        F(0.0)
    }
    fn one() -> Self {
        F(1.0)
    }
    fn from_usize(n: usize) -> Self {
        F(n as f64)
    }
    fn add(self, rhs: Self) -> Self {
        F(self.0 + rhs.0)
    }
    fn sub(self, rhs: Self) -> Self {
        F(self.0 - rhs.0)
    }
    fn mul(self, rhs: Self) -> Self {
        F(self.0 * rhs.0)
    }
    fn div(self, rhs: Self) -> Self {
        F(self.0 / rhs.0)
    }
    fn neg(self) -> Self {
        F(-self.0)
    }
    fn abs(self) -> Self {
        F(self.0.abs())
    }
    fn floor(self) -> Self {
        F(self.0.floor())
    }
    fn exp(self) -> Self {
        F(std::f64::consts::E.powf(self.0))
    }
    fn lt(self, rhs: Self) -> bool {
        self.0 < rhs.0
    }
}

fn floats(values: &[f64]) -> Vec<F> {
    values.iter().map(|v| F(*v)).collect()
}

fn neuron(bias: f64, weights: &[f64]) -> (F, Vec<F>) {
    (F(bias), floats(weights))
}

fn close(a: F, b: f64) -> bool {
    (a.0 - b).abs() < 1e-12
}

fn random_network(schema: Vec<u8>, seed: u64) -> Network<F> {
    let mut rng = StdRng::seed_from_u64(seed);
    let count = Network::<F>::draws_needed(&schema).unwrap();
    let draws: Vec<F> = (0..count).map(|_| F(rng.gen::<f64>())).collect();
    Network::new(Activation::sigmoid(), schema, draws).unwrap()
}

fn fixed_weight_network() -> Network<F> {
    Network::from(
        Activation::sigmoid(),
        vec![
            vec![neuron(-5.0, &[10.0, 0.0]), neuron(-5.0, &[0.0, 10.0])],
            vec![neuron(0.0, &[10.0, -10.0]), neuron(0.0, &[-10.0, 10.0])],
        ],
    )
}

#[test]
fn fixed_weights_classify_four_inputs() {
    let network = fixed_weight_network();
    assert!(network.is_well_formed());
    assert_eq!(network.classify(floats(&[1.0, 0.0])), Ok(0));
    assert_eq!(network.classify(floats(&[0.0, 1.0])), Ok(1));
    // Both outputs are one half here: the first of equals wins.
    assert_eq!(network.classify(floats(&[0.0, 0.0])), Ok(0));
    assert_eq!(network.classify(floats(&[1.0, 1.0])), Ok(0));
}

#[test]
fn fixed_weights_give_known_outputs() {
    let network = fixed_weight_network();
    let outputs = network.compute(floats(&[0.0, 0.0])).unwrap();
    assert_eq!(outputs.len(), 2);
    assert!(close(outputs[0], 0.5));
    assert!(close(outputs[1], 0.5));
    let outputs = network.compute(floats(&[1.0, 0.0])).unwrap();
    let strong = 1.0 / (1.0 + (-5.0_f64).exp());
    let weak = 1.0 / (1.0 + (5.0_f64).exp());
    let first = 1.0 / (1.0 + (-(10.0 * strong - 10.0 * weak)).exp());
    assert!(close(outputs[0], first));
    assert!(close(outputs[1], 1.0 - first));
}

#[test]
fn classify_gives_an_output_index_and_repeats_itself() {
    let network = random_network(vec![3, 4, 5], 7);
    assert!(network.is_well_formed());
    for step in 0..20 {
        let x = step as f64 / 10.0 - 1.0;
        let first = network.classify(floats(&[x, -x, 0.5 * x])).unwrap();
        let second = network.classify(floats(&[x, -x, 0.5 * x])).unwrap();
        assert!(first < 5);
        assert_eq!(first, second);
    }
}

#[test]
fn classify_refuses_inputs_of_another_length() {
    let network = fixed_weight_network();
    assert_eq!(
        network.classify(floats(&[1.0])),
        Err(NetworkError::DimensionMismatch)
    );
    assert_eq!(
        network.classify(floats(&[1.0, 0.0, 0.0])),
        Err(NetworkError::DimensionMismatch)
    );
    assert_eq!(network.classify(Vec::new()), Err(NetworkError::DimensionMismatch));
}

#[test]
fn sigmoid_and_its_derivative() {
    let sigmoid = Activation::sigmoid();
    assert!(close(sigmoid.apply(F(0.0)), 0.5));
    assert!(close(sigmoid.apply(F(2.0)), 1.0 / (1.0 + (-2.0_f64).exp())));
    assert!(close(sigmoid.apply(F(-3.0)), 1.0 / (1.0 + (3.0_f64).exp())));
    assert!(close(sigmoid.derivative_from_output(F(0.5)), 0.25));
    assert!(close(sigmoid.derivative_from_output(F(0.2)), 0.16));
}

#[test]
fn leaky_relu_and_its_derivative() {
    let relu = Activation::leaky_relu();
    assert!(close(relu.apply(F(2.0)), 2.0));
    assert!(close(relu.apply(F(0.0)), 0.0));
    assert!(close(relu.apply(F(-0.5)), -0.005));
    assert_eq!(relu.derivative_from_output(F(0.3)), F(1.0));
    assert_eq!(relu.derivative_from_output(F(0.0)), F(0.0));
    assert_eq!(relu.derivative_from_output(F(-0.005)), F(0.0));
}

#[test]
fn layer_forward_is_weighted_sum_plus_bias_through_activation() {
    let layer = Layer::from(vec![neuron(0.5, &[2.0, -3.0]), neuron(-1.0, &[1.0, 1.0])]);
    let outputs = layer
        .activations(&floats(&[1.0, 1.0]), &Activation::leaky_relu())
        .unwrap();
    assert_eq!(outputs.len(), 2);
    assert!(close(outputs[0], -0.005));
    assert!(close(outputs[1], 1.0));
}

#[test]
fn layer_forward_refuses_inputs_of_another_length() {
    let layer = Layer::from(vec![neuron(0.5, &[2.0, -3.0])]);
    assert_eq!(
        layer.activations(&floats(&[1.0]), &Activation::sigmoid()),
        Err(NetworkError::DimensionMismatch)
    );
    assert_eq!(
        layer.activations(&floats(&[1.0, 2.0, 3.0]), &Activation::sigmoid()),
        Err(NetworkError::DimensionMismatch)
    );
    let ragged = Layer::from(vec![neuron(0.0, &[1.0, 1.0]), neuron(0.0, &[1.0])]);
    assert_eq!(
        ragged.activations(&floats(&[1.0, 1.0]), &Activation::sigmoid()),
        Err(NetworkError::DimensionMismatch)
    );
}

#[test]
fn commit_adds_the_average_of_the_staged_nudges() {
    let mut layer = Layer::from(vec![neuron(1.0, &[2.0, 3.0])]);
    assert!(layer.is_well_formed());
    layer.add_update(vec![neuron(0.5, &[1.0, 2.0])]);
    layer.add_update(vec![neuron(1.5, &[3.0, 6.0])]);
    assert_eq!(layer.pending_count, 2);
    assert_eq!(layer.pending, vec![neuron(2.0, &[4.0, 8.0])]);
    // Staging alone leaves the live weights alone.
    assert_eq!(layer.neurons, vec![neuron(1.0, &[2.0, 3.0])]);
    layer.commit_updates();
    assert_eq!(layer.neurons, vec![neuron(2.0, &[4.0, 7.0])]);
    assert_eq!(layer.pending_count, 0);
    assert_eq!(layer.pending, vec![neuron(0.0, &[0.0, 0.0])]);
}

#[test]
fn commit_of_nothing_changes_nothing() {
    let mut layer = Layer::from(vec![neuron(1.0, &[2.0, 3.0]), neuron(-4.0, &[0.5, 0.25])]);
    layer.commit_updates();
    assert_eq!(
        layer.neurons,
        vec![neuron(1.0, &[2.0, 3.0]), neuron(-4.0, &[0.5, 0.25])]
    );
    assert_eq!(layer.pending_count, 0);
    layer.add_update(vec![neuron(1.0, &[1.0, 1.0]), neuron(1.0, &[1.0, 1.0])]);
    layer.commit_updates();
    layer.commit_updates();
    assert_eq!(
        layer.neurons,
        vec![neuron(2.0, &[3.0, 4.0]), neuron(-3.0, &[1.5, 1.25])]
    );
}

fn scheduled(min_lr: f64, max_lr: f64, step_size: f64) -> Network<F> {
    let mut network = fixed_weight_network();
    network.min_lr = F(min_lr);
    network.max_lr = F(max_lr);
    network.step_size = F(step_size);
    network
}

#[test]
fn learning_rate_follows_a_triangle() {
    let network = scheduled(0.1, 0.8, 8.0);
    assert!(close(network.calculate_learning_rate(F(0.0)), 0.8));
    assert!(close(network.calculate_learning_rate(F(4.0)), 0.45));
    assert!(close(network.calculate_learning_rate(F(8.0)), 0.1));
    assert!(close(network.calculate_learning_rate(F(12.0)), 0.45));
    assert!(close(network.calculate_learning_rate(F(16.0)), 0.8));
    assert!(close(network.calculate_learning_rate(F(2.0)), 0.625));
}

#[test]
fn learning_rate_stays_within_bounds_and_repeats() {
    let network = scheduled(0.1, 0.8, 8.0);
    for epoch in 0..200 {
        let rate = network.calculate_learning_rate(F(epoch as f64));
        assert!(rate.0 >= 0.1 - 1e-12 && rate.0 <= 0.8 + 1e-12);
        let later = network.calculate_learning_rate(F(epoch as f64 + 4.0 * 8.0));
        assert!(close(later, rate.0));
    }
}

#[test]
fn a_new_network_has_rate_one_fifth_and_batch_size_one() {
    let network = fixed_weight_network();
    assert!(close(network.learning_rate, 0.2));
    assert!(close(network.min_lr, 0.2));
    assert!(close(network.max_lr, 0.2));
    assert_eq!(network.step_size, F(1.0));
    assert_eq!(network.batch_size, 1);
    assert_eq!(network.activation, Activation::Sigmoid);
    assert_eq!(network.layers.len(), 2);
    assert_eq!(network.layers[0].pending_count, 0);
    assert_eq!(
        network.layers[1].pending,
        vec![neuron(0.0, &[0.0, 0.0]), neuron(0.0, &[0.0, 0.0])]
    );
}

#[test]
fn draws_become_weights_between_minus_one_and_one() {
    let draws = floats(&[0.0, 0.25, 0.5, 0.75, 0.125, 0.875, 1.0, 0.375, 0.5]);
    let network = Network::new(Activation::leaky_relu(), vec![2, 3, 1], draws).unwrap();
    assert!(network.is_well_formed());
    assert_eq!(network.layers.len(), 2);
    assert_eq!(
        network.layers[0].neurons,
        vec![
            neuron(0.0, &[-1.0, -0.5]),
            neuron(0.0, &[0.0, 0.5]),
            neuron(0.0, &[-0.75, 0.75])
        ]
    );
    assert_eq!(network.layers[1].neurons, vec![neuron(0.0, &[1.0, -0.25, 0.0])]);
    assert_eq!(network.layers[1].pending, vec![neuron(0.0, &[0.0, 0.0, 0.0])]);
    assert_eq!(network.activation, Activation::LeakyRelu);
    assert_eq!(network.batch_size, 1);
}

#[test]
fn a_wrong_number_of_draws_makes_no_network() {
    assert!(Network::new(Activation::sigmoid(), vec![2, 2], floats(&[0.1, 0.2, 0.3])).is_none());
    assert!(
        Network::new(Activation::sigmoid(), vec![2, 2], floats(&[0.1, 0.2, 0.3, 0.4, 0.5]))
            .is_none()
    );
    assert!(Network::new(Activation::sigmoid(), vec![2, 2], floats(&[0.1, 0.2, 0.3, 0.4])).is_some());
    assert!(Network::<F>::new(Activation::sigmoid(), vec![], vec![]).is_some());
    assert!(Network::new(Activation::sigmoid(), vec![4], floats(&[0.5])).is_none());
}

#[test]
fn well_formedness_is_checked() {
    assert!(fixed_weight_network().is_well_formed());
    // no layer
    let empty: Network<F> = Network::from(Activation::sigmoid(), vec![]);
    assert!(!empty.is_well_formed());
    // the second layer does not take two inputs
    let broken = Network::from(
        Activation::sigmoid(),
        vec![
            vec![neuron(0.0, &[1.0]), neuron(0.0, &[1.0])],
            vec![neuron(0.0, &[1.0, 1.0, 1.0])],
        ],
    );
    assert!(!broken.is_well_formed());
    // no output neuron
    let mute: Network<F> = Network::from(Activation::sigmoid(), vec![vec![]]);
    assert!(!mute.is_well_formed());
    // a buffer of another shape
    let mut spoiled = fixed_weight_network();
    spoiled.layers[0].pending.pop();
    assert!(!spoiled.is_well_formed());
    assert!(!spoiled.layers[0].is_well_formed());
    assert!(Network::<F>::new(Activation::sigmoid(), vec![3], vec![])
        .map(|n| !n.is_well_formed())
        .unwrap());
}

fn single_neuron() -> Network<F> {
    let mut network = Network::from(Activation::leaky_relu(), vec![vec![neuron(0.0, &[0.5])]]);
    network.min_lr = F(0.25);
    network.max_lr = F(0.25);
    network
}

#[test]
fn one_example_moves_the_weights_by_its_nudges() {
    let mut network = single_neuron();
    assert_eq!(network.train(&vec![(0, floats(&[1.0]))], 0), Ok(()));
    // output 0.5, target 1: delta = 1 * -(1 - 0.5); nudges = delta * rate, input * delta * rate
    assert!(close(network.learning_rate, 0.25));
    assert!(close(network.layers[0].neurons[0].0, -0.125));
    assert!(close(network.layers[0].neurons[0].1[0], 0.375));
    assert_eq!(network.layers[0].pending_count, 0);
}

#[test]
fn output_error_signals_of_equal_sigmoid_outputs() {
    let mut network = Network::from(
        Activation::sigmoid(),
        vec![vec![neuron(0.0, &[0.0]), neuron(0.0, &[0.0])]],
    );
    network.min_lr = F(1.0);
    network.max_lr = F(1.0);
    assert!(network.is_well_formed());
    assert_eq!(network.train(&vec![(0, floats(&[1.0]))], 0), Ok(()));
    // both outputs are 0.5 with slope 0.25: -(1 - 0.5) * 0.25 and -(0 - 0.5) * 0.25
    assert!(close(network.layers[0].neurons[0].0, -0.125));
    assert!(close(network.layers[0].neurons[1].0, 0.125));
    assert!(close(network.layers[0].neurons[0].1[0], -0.125));
    assert!(close(network.layers[0].neurons[1].1[0], 0.125));

    let mut other = Network::from(
        Activation::sigmoid(),
        vec![vec![neuron(0.0, &[0.0]), neuron(0.0, &[0.0])]],
    );
    other.min_lr = F(1.0);
    other.max_lr = F(1.0);
    assert_eq!(other.train(&vec![(1, floats(&[1.0]))], 0), Ok(()));
    assert!(close(other.layers[0].neurons[0].0, 0.125));
    assert!(close(other.layers[0].neurons[1].0, -0.125));
}

#[test]
fn commits_come_after_each_example_whose_index_is_a_multiple_of_the_batch_size() {
    let mut network = single_neuron();
    network.batch_size = 2;
    let data = vec![
        (0, floats(&[1.0])),
        (0, floats(&[2.0])),
        (0, floats(&[0.5])),
        (0, floats(&[1.5])),
    ];
    assert_eq!(network.train(&data, 3), Ok(()));

    let rate = 0.25;
    let (mut bias, mut weight) = (0.0_f64, 0.5_f64);
    // example 0 is committed alone
    let delta = -(1.0 - (weight * 1.0 + bias));
    bias += delta * rate;
    weight += 1.0 * delta * rate;
    // examples 1 and 2 are averaged
    let first = -(1.0 - (weight * 2.0 + bias));
    let second = -(1.0 - (weight * 0.5 + bias));
    let bias_sum = first * rate + second * rate;
    let weight_sum = 2.0 * first * rate + 0.5 * second * rate;
    bias += bias_sum / 2.0;
    weight += weight_sum / 2.0;
    // example 3 is committed at the end of the pass
    let last = -(1.0 - (weight * 1.5 + bias));
    bias += last * rate;
    weight += 1.5 * last * rate;

    assert!(close(F(bias), -0.2890625 + -(1.0 - 0.044921875) * 0.25));
    assert!(close(network.layers[0].neurons[0].0, bias));
    assert!(close(network.layers[0].neurons[0].1[0], weight));
    assert_eq!(network.layers[0].pending_count, 0);
}

#[test]
fn a_hidden_layer_gets_the_error_through_the_weights_after_it() {
    let mut network = Network::from(
        Activation::leaky_relu(),
        vec![
            vec![neuron(0.0, &[1.0]), neuron(0.0, &[2.0])],
            vec![neuron(0.0, &[0.5, 0.25])],
        ],
    );
    network.min_lr = F(0.5);
    network.max_lr = F(0.5);
    assert!(network.is_well_formed());
    assert_eq!(network.train(&vec![(0, floats(&[1.0]))], 0), Ok(()));
    // hidden activations 1 and 2, output 0.5 + 0.5 = 1, target 1: every nudge is zero
    assert!(close(network.layers[1].neurons[0].1[0], 0.5));
    assert!(close(network.layers[0].neurons[0].1[0], 1.0));

    assert_eq!(network.train(&vec![(0, floats(&[2.0]))], 0), Ok(()));
    // hidden activations 2 and 4, output 2, delta = 1 * -(1 - 2) = 1
    // output layer: bias 0.5, weights 0.5 + 2 * 1 * 0.5, 0.25 + 4 * 1 * 0.5
    assert!(close(network.layers[1].neurons[0].0, 0.5));
    assert!(close(network.layers[1].neurons[0].1[0], 1.5));
    assert!(close(network.layers[1].neurons[0].1[1], 2.25));
    // hidden deltas: 1 * (1 * 0.5) and 1 * (1 * 0.25), through the weights before the commit
    assert!(close(network.layers[0].neurons[0].0, 0.25));
    assert!(close(network.layers[0].neurons[0].1[0], 1.0 + 2.0 * 0.5 * 0.5));
    assert!(close(network.layers[0].neurons[1].0, 0.125));
    assert!(close(network.layers[0].neurons[1].1[0], 2.0 + 2.0 * 0.25 * 0.5));
}

#[test]
fn training_refuses_features_of_another_length() {
    let mut network = single_neuron();
    let data = vec![(0, floats(&[1.0])), (0, floats(&[1.0, 2.0])), (0, floats(&[3.0]))];
    assert_eq!(network.train(&data, 0), Err(NetworkError::DimensionMismatch));
    // What the first example committed stays; the third was never seen.
    assert!(close(network.layers[0].neurons[0].0, -0.125));
    assert!(close(network.layers[0].neurons[0].1[0], 0.375));
    assert_eq!(network.layers[0].pending_count, 0);
}

#[test]
fn training_refuses_a_label_without_a_neuron() {
    let mut network = single_neuron();
    network.batch_size = 4;
    let data = vec![(0, floats(&[1.0])), (0, floats(&[2.0])), (1, floats(&[1.0]))];
    assert_eq!(network.train(&data, 0), Err(NetworkError::LabelOutOfRange));
    // The first example was committed, the second is still staged.
    assert!(close(network.layers[0].neurons[0].0, -0.125));
    assert_eq!(network.layers[0].pending_count, 1);
    // output 0.75 - 0.125, delta -(1 - 0.625), nudges delta * rate and 2 * delta * rate
    assert!(close(network.layers[0].pending[0].0, -0.09375));
    assert!(close(network.layers[0].pending[0].1[0], -0.1875));
    let mut wide = fixed_weight_network();
    assert_eq!(
        wide.train(&vec![(2, floats(&[1.0, 1.0]))], 0),
        Err(NetworkError::LabelOutOfRange)
    );
    assert_eq!(
        wide.train(&vec![(7, floats(&[1.0]))], 0),
        Err(NetworkError::DimensionMismatch)
    );
}

#[test]
fn training_on_nothing_changes_no_weight() {
    let mut network = fixed_weight_network();
    network.min_lr = F(0.5);
    network.max_lr = F(1.5);
    network.step_size = F(2.0);
    network.batch_size = 0;
    assert_eq!(network.train(&Vec::new(), 1), Ok(()));
    assert!(close(network.learning_rate, 1.0));
    let same = fixed_weight_network();
    for l in 0..2 {
        assert_eq!(network.layers[l].neurons, same.layers[l].neurons);
    }
}

#[test]
fn staged_updates_and_settings_do_not_change_the_class() {
    let plain = random_network(vec![2, 3, 2], 5);
    let mut busy = random_network(vec![2, 3, 2], 5);
    busy.layers[0].add_update(vec![
        neuron(1.0, &[1.0, 1.0]),
        neuron(1.0, &[1.0, 1.0]),
        neuron(1.0, &[1.0, 1.0]),
    ]);
    busy.batch_size = 7;
    busy.learning_rate = F(9.0);
    assert!(busy.is_well_formed());
    for step in 0..10 {
        let x = step as f64 / 5.0 - 1.0;
        assert_eq!(
            busy.classify(floats(&[x, 1.0 - x])),
            plain.classify(floats(&[x, 1.0 - x]))
        );
    }
}

#[test]
fn one_draw_is_needed_for_each_weight() {
    assert_eq!(Network::<F>::draws_needed(&vec![2, 3, 2]), Some(12));
    assert_eq!(Network::<F>::draws_needed(&vec![64, 128, 128, 10]), Some(25856));
    assert_eq!(Network::<F>::draws_needed(&vec![255, 255]), Some(65025));
    assert_eq!(Network::<F>::draws_needed(&vec![7]), Some(0));
    assert_eq!(Network::<F>::draws_needed(&vec![]), Some(0));
    assert_eq!(Network::<F>::draws_needed(&vec![4, 0, 9]), Some(0));
}
