use approx::RelativeEq;
use lib_simulation::{Chromosome, Error, Layer, LayerTopology, Network, Neuron};
use rand::{Rng, SeedableRng};
use rand_chacha::ChaCha8Rng;

fn bits(values: &[f32]) -> Vec<u32> {
    values.iter().map(|value| value.to_bits()).collect()
}

fn reals(patterns: &[u32]) -> Vec<f32> {
    patterns.iter().map(|pattern| f32::from_bits(*pattern)).collect()
}

fn close(actual: &[f32], expected: &[f32]) -> bool {
    actual.relative_eq(expected, f32::EPSILON, f32::EPSILON)
}

fn neuron(bias: f32, weights: &[f32]) -> Neuron {
    Neuron::new(bias.to_bits(), bits(weights))
}

fn fire(neuron: &Neuron, inputs: &Vec<u32>) -> u32 {
    assert_eq!(inputs.len(), neuron.weights().len());
    let output = inputs
        .iter()
        .zip(neuron.weights())
        .map(|(input, weight)| f32::from_bits(*input) * f32::from_bits(*weight))
        .sum::<f32>();
    (f32::from_bits(neuron.bias()) + output).max(0.0).to_bits()
}

fn draw(rng: &mut ChaCha8Rng) -> u32 {
    rng.gen_range(-1.0f32..=1.0).to_bits()
}

fn topology(sizes: &[usize]) -> Vec<LayerTopology> {
    sizes.iter().map(|neurons| LayerTopology { neurons: *neurons }).collect()
}

#[test]
fn random() {
    let mut rng = ChaCha8Rng::from_seed(Default::default());

    let neuron = Neuron::random(&mut rng, &draw, 4);
    assert!(close(&[f32::from_bits(neuron.bias())], &[-0.6255188]));
    assert!(close(&reals(neuron.weights()), &[0.67383957, 0.8181262, 0.26284897, 0.5238807]));

    let mut rng = ChaCha8Rng::from_seed(Default::default());

    let network = Network::random(&mut rng, &draw, &topology(&[3, 2, 1])).unwrap();
    let layers = network.layers();
    assert_eq!(layers.len(), 2);
    assert_eq!(layers[0].neurons().len(), 2);
    assert!(close(&[f32::from_bits(layers[0].neurons()[0].bias())], &[-0.6255188]));
    assert!(close(&reals(layers[0].neurons()[0].weights()), &[0.67383957, 0.8181262, 0.26284897]));
    assert!(close(&[f32::from_bits(layers[0].neurons()[1].bias())], &[0.5238807]));
    assert!(close(&reals(layers[0].neurons()[1].weights()), &[-0.5351684, 0.069369555, -0.7648182]));
    assert_eq!(layers[1].neurons().len(), 1);
    assert!(close(&reals(layers[1].neurons()[0].weights()), &[-0.48879623, -0.19277143]));

    let mut rng = ChaCha8Rng::from_seed(Default::default());

    let layer = Layer::random(&mut rng, &draw, 3, 2);
    let actual_biases: Vec<f32> = layer.neurons().iter().map(|neuron| f32::from_bits(neuron.bias())).collect();
    let expected_biases = vec![-0.6255188, 0.5238807];
    let actual_weights: Vec<Vec<f32>> = layer.neurons().iter().map(|neuron| reals(neuron.weights())).collect();
    let expected_weights: Vec<&[f32]> =
        vec![&[0.67383957, 0.8181262, 0.26284897], &[-0.53516835, 0.069369674, -0.7648182]];
    assert!(close(&actual_biases, &expected_biases));
    assert_eq!(actual_weights.len(), expected_weights.len());
    for (actual, expected) in actual_weights.iter().zip(expected_weights) {
        assert!(close(actual, expected));
    }
}

#[test]
fn propagate() {
    let actual = neuron(0.1, &[-0.3, 0.6, 0.9]).propagate(&bits(&[0.5, -0.6, 0.7]), &fire);
    let expected: f32 = 0.1 + (0.5 * -0.3) + (-0.6 * 0.6) + (0.7 * 0.9);
    assert!(close(&[f32::from_bits(actual)], &[expected.max(0.0)]));

    let unit = neuron(0.0, &[0.5]);
    let v1 = f32::from_bits(unit.propagate(&bits(&[-1.0]), &fire));
    let v2 = f32::from_bits(unit.propagate(&bits(&[-0.5]), &fire));
    let v3 = f32::from_bits(unit.propagate(&bits(&[0.0]), &fire));
    let v4 = f32::from_bits(unit.propagate(&bits(&[0.5]), &fire));
    let v5 = f32::from_bits(unit.propagate(&bits(&[1.0]), &fire));
    assert!(close(&[v1], &[v2]));
    assert!(close(&[v2], &[v3]));
    assert!(!close(&[v3], &[v4]));
    assert!(!close(&[v4], &[v5]));

    let layers = (
        Layer::new(vec![neuron(0.0, &[-0.5, -0.4, -0.3]), neuron(0.0, &[-0.2, -0.1, 0.0])]),
        Layer::new(vec![neuron(0.0, &[-0.5, 0.5])]),
    );
    let network = Network::new(vec![layers.0.clone(), layers.1.clone()]);
    let actual = network.propagate(bits(&[0.5, 0.6, 0.7]), &fire);
    let expected = layers.1.propagate(layers.0.propagate(bits(&[0.5, 0.6, 0.7]), &fire), &fire);
    assert!(close(&reals(&actual), &reals(&expected)));

    let neurons = (neuron(0.0, &[0.1, 0.2, 0.3]), neuron(0.0, &[0.4, 0.5, 0.6]));
    let layer = Layer::new(vec![neurons.0.clone(), neurons.1.clone()]);
    let inputs = bits(&[-0.5, 0.0, 0.5]);
    let actual = layer.propagate(inputs.clone(), &fire);
    let expected = vec![neurons.0.propagate(&inputs, &fire), neurons.1.propagate(&inputs, &fire)];
    assert!(close(&reals(&actual), &reals(&expected)));
}

#[test]
fn propagate_feeds_each_layer_with_the_answer_of_the_layer_before() {
    let network = Network::new(vec![
        Layer::new(vec![neuron(0.5, &[1.0, 2.0]), neuron(-10.0, &[1.0, 1.0])]),
        Layer::new(vec![neuron(1.0, &[2.0, 3.0])]),
    ]);
    let output = network.propagate(bits(&[1.0, 1.0]), &fire);
    assert_eq!(reals(&output), vec![8.0]);
}

#[test]
fn weights_are_listed_layer_by_layer_with_the_bias_after_the_weights() {
    let network = Network::new(vec![
        Layer::new(vec![neuron(0.1, &[0.2, 0.3, 0.4]), neuron(0.5, &[0.6, 0.7, 0.8])]),
        Layer::new(vec![neuron(0.9, &[1.0, 1.1])]),
    ]);
    let expected = bits(&[0.2, 0.3, 0.4, 0.1, 0.6, 0.7, 0.8, 0.5, 1.0, 1.1, 0.9]);
    assert_eq!(network.weights(), expected);
    assert_eq!(network.to_chromosome().into_genes(), expected);
}

#[test]
fn from_chromosome_reads_the_genes_in_the_order_of_weights() {
    let genes = bits(&[0.2, 0.3, 0.4, 0.1, 0.6, 0.7, 0.8, 0.5, 1.0, 1.1, 0.9]);
    let network = Network::from_chromosome(&topology(&[3, 2, 1]), Chromosome::new(genes.clone())).unwrap();
    let layers = network.layers();
    assert_eq!(layers.len(), 2);
    assert_eq!(layers[0].neurons().len(), 2);
    assert_eq!(layers[0].neurons()[0].bias(), 0.1f32.to_bits());
    assert_eq!(layers[0].neurons()[0].weights(), &bits(&[0.2, 0.3, 0.4]));
    assert_eq!(layers[0].neurons()[1].bias(), 0.5f32.to_bits());
    assert_eq!(layers[0].neurons()[1].weights(), &bits(&[0.6, 0.7, 0.8]));
    assert_eq!(layers[1].neurons()[0].bias(), 0.9f32.to_bits());
    assert_eq!(layers[1].neurons()[0].weights(), &bits(&[1.0, 1.1]));
    assert_eq!(network.weights(), genes);
}

#[test]
fn round_trip_keeps_the_answers() {
    let mut rng = ChaCha8Rng::from_seed([7; 32]);
    let layers = topology(&[4, 6, 3]);
    let network = Network::random(&mut rng, &draw, &layers).unwrap();
    let rebuilt = Network::from_chromosome(&layers, network.to_chromosome()).unwrap();
    assert_eq!(rebuilt.weights(), network.weights());
    for _ in 0..20 {
        let inputs: Vec<u32> = (0..4).map(|_| draw(&mut rng)).collect();
        assert_eq!(rebuilt.propagate(inputs.clone(), &fire), network.propagate(inputs, &fire));
    }
}

#[test]
fn count_parameters_counts_weights_and_biases() {
    assert_eq!(Network::count_parameters(&topology(&[3, 2, 1])), Some(11));
    assert_eq!(Network::count_parameters(&topology(&[9, 18, 2])), Some(218));
    assert_eq!(Network::count_parameters(&topology(&[5])), Some(0));
    assert_eq!(Network::count_parameters(&topology(&[usize::MAX, usize::MAX])), None);
}

#[test]
fn a_topology_needs_two_sizes_and_no_empty_layer() {
    assert!(Network::valid_topology(&topology(&[3, 1])));
    assert!(!Network::valid_topology(&topology(&[3])));
    assert!(!Network::valid_topology(&topology(&[])));
    assert!(!Network::valid_topology(&topology(&[3, 0, 1])));
    let mut rng = ChaCha8Rng::from_seed(Default::default());
    assert_eq!(Network::random(&mut rng, &draw, &topology(&[3])).err(), Some(Error::InvalidTopology));
    assert_eq!(
        Network::from_chromosome(&topology(&[3]), Chromosome::new(Vec::new())).err(),
        Some(Error::InvalidTopology)
    );
    assert_eq!(
        Network::from_chromosome(&topology(&[0, 2]), Chromosome::new(vec![0, 0])).err(),
        Some(Error::InvalidTopology)
    );
}

#[test]
fn a_chromosome_of_the_wrong_length_is_refused() {
    let layers = topology(&[3, 2, 1]);
    assert_eq!(
        Network::from_chromosome(&layers, Chromosome::new(vec![0; 10])).err(),
        Some(Error::EncodingMismatch)
    );
    assert_eq!(
        Network::from_chromosome(&layers, Chromosome::new(vec![0; 12])).err(),
        Some(Error::EncodingMismatch)
    );
    assert!(Network::from_chromosome(&layers, Chromosome::new(vec![0; 11])).is_ok());
}
