//! Feed-forward networks: layers of neurons, their flat encoding as genes, and
//! the propagation of an input through the layers.

use rand_chacha::ChaCha8Rng;
use vstd::prelude::*;

use crate::chromosome::Chromosome;
use crate::error::Error;
use crate::random::{draws_always, may_draw};

verus! {

/// The size of one layer of a network. A topology is a list of these, from
/// the input size to the output size.
#[derive(Clone, Copy, Debug)]
pub struct LayerTopology {
    pub neurons: usize,
}

/// What a neuron is: a bias, and one weight for each input.
#[verifier::ext_equal]
pub struct NeuronView {
    pub bias: u32,
    pub weights: Seq<u32>,
}

/// What a layer is: its neurons in order.
pub type LayerView = Seq<NeuronView>;

/// What a network is: its layers in order, from the input side.
pub type NetworkView = Seq<LayerView>;

/// The genes of a neuron: its weights in input order, then its bias.
pub open spec fn neuron_genes(neuron: NeuronView) -> Seq<u32> {
    neuron.weights.push(neuron.bias)
}

/// The genes of a layer: those of its neurons, neuron by neuron.
pub open spec fn layer_genes(layer: LayerView) -> Seq<u32>
    decreases layer.len(),
{
    if layer.len() == 0 {
        Seq::empty()
    } else {
        layer_genes(layer.drop_last()) + neuron_genes(layer.last())
    }
}

/// The genes of a network: those of its layers, layer by layer.
pub open spec fn network_genes(network: NetworkView) -> Seq<u32>
    decreases network.len(),
{
    if network.len() == 0 {
        Seq::empty()
    } else {
        network_genes(network.drop_last()) + layer_genes(network.last())
    }
}

/// The number of inputs that a layer takes: the number of weights of its
/// neurons.
pub open spec fn layer_inputs(layer: LayerView) -> nat {
    layer[0].weights.len()
}

/// A layer has a neuron, and its neurons have the same number of weights, at
/// least one.
pub open spec fn layer_wf(layer: LayerView) -> bool {
    &&& layer.len() > 0
    &&& layer_inputs(layer) > 0
    &&& forall|j: int| 0 <= j < layer.len() ==> (#[trigger] layer[j]).weights.len() == layer_inputs(layer)
}

/// A network has a layer, its layers are well formed, and each layer takes as
/// many inputs as the layer before it has neurons.
pub open spec fn network_wf(network: NetworkView) -> bool {
    &&& network.len() > 0
    &&& forall|l: int| 0 <= l < network.len() ==> layer_wf(#[trigger] network[l])
    &&& forall|l: int| 0 < l < network.len() ==> layer_inputs(#[trigger] network[l]) == network[l - 1].len()
}

/// The layer sizes of a network: the number of its inputs, then the number of
/// neurons of each layer.
pub open spec fn shape(network: NetworkView) -> Seq<nat> {
    Seq::new(
        network.len() + 1,
        |i: int|
            if i == 0 {
                layer_inputs(network[0])
            } else {
                network[i - 1].len()
            },
    )
}

/// The layer sizes that a topology names.
pub open spec fn sizes(topology: Seq<LayerTopology>) -> Seq<nat> {
    Seq::new(topology.len(), |i: int| topology[i].neurons as nat)
}

/// Layer sizes that a network can have: at least an input and an output size,
/// none of them zero.
pub open spec fn valid_sizes(sizes: Seq<nat>) -> bool {
    &&& sizes.len() >= 2
    &&& forall|i: int| 0 <= i < sizes.len() ==> #[trigger] sizes[i] > 0
}

/// The number of parameters of a network with the given layer sizes: for each
/// layer after the first, one weight per neuron and input, and one bias per
/// neuron.
pub open spec fn parameter_count(sizes: Seq<nat>) -> nat
    decreases sizes.len(),
{
    if sizes.len() < 2 {
        0
    } else {
        parameter_count(sizes.drop_last()) + sizes.last() * (sizes[sizes.len() - 2] + 1)
    }
}

/// What decoding `genes` by `topology` may give: a well-formed network of that
/// shape with exactly those genes where the topology is valid and the number
/// of genes is the number of its parameters, and otherwise the reason why not,
/// the topology judged first.
pub open spec fn decoded(topology: Seq<LayerTopology>, genes: Seq<u32>, result: Result<Network, Error>) -> bool {
    match result {
        Ok(network) => {
            &&& valid_sizes(sizes(topology))
            &&& genes.len() == parameter_count(sizes(topology))
            &&& network.wf()
            &&& shape(network@) == sizes(topology)
            &&& network_genes(network@) == genes
        },
        Err(error) => if !valid_sizes(sizes(topology)) {
            error == Error::InvalidTopology
        } else {
            error == Error::EncodingMismatch && genes.len() != parameter_count(sizes(topology))
        },
    }
}

/// The parameters of the first `k` layer sizes are among the parameters of
/// all of them.
pub proof fn lemma_parameter_count_prefix(sizes: Seq<nat>, k: int)
    requires
        0 <= k <= sizes.len(),
    ensures
        parameter_count(sizes.take(k)) <= parameter_count(sizes),
    decreases sizes.len(),
{
    if k == sizes.len() {
        assert(sizes.take(k) =~= sizes);
    } else {
        assert(sizes.drop_last().take(k) =~= sizes.take(k));
        lemma_parameter_count_prefix(sizes.drop_last(), k);
    }
}

/// One more layer size adds a weight per neuron and input and a bias per
/// neuron.
pub proof fn lemma_parameter_count_step(sizes: Seq<nat>, k: int)
    requires
        1 <= k < sizes.len(),
    ensures
        parameter_count(sizes.take(k + 1)) == parameter_count(sizes.take(k)) + sizes[k] * (sizes[k - 1] + 1),
{
    assert(sizes.take(k + 1).drop_last() =~= sizes.take(k));
}

/// Two sequences of equal length that are followed by two others are equal,
/// and so are the others, where the joined sequences are equal.
proof fn lemma_split_equal(head_a: Seq<u32>, tail_a: Seq<u32>, head_b: Seq<u32>, tail_b: Seq<u32>)
    requires
        head_a.len() == head_b.len(),
        head_a + tail_a == head_b + tail_b,
    ensures
        head_a == head_b,
        tail_a == tail_b,
{
    let n = head_a.len() as int;
    assert(head_a =~= (head_a + tail_a).take(n));
    assert(head_b =~= (head_b + tail_b).take(n));
    assert(tail_a =~= (head_a + tail_a).skip(n));
    assert(tail_b =~= (head_b + tail_b).skip(n));
}

/// A layer whose neurons have `inputs` weights each has `inputs + 1` genes for
/// each neuron.
pub proof fn lemma_layer_genes_len(layer: LayerView, inputs: nat)
    requires
        forall|j: int| 0 <= j < layer.len() ==> (#[trigger] layer[j]).weights.len() == inputs,
    ensures
        layer_genes(layer).len() == layer.len() * (inputs + 1),
    decreases layer.len(),
{
    if layer.len() > 0 {
        lemma_layer_genes_len(layer.drop_last(), inputs);
        assert(layer.len() * (inputs + 1) == (layer.len() - 1) * (inputs + 1) + (inputs + 1))
            by (nonlinear_arith);
    }
}

/// A well-formed network has as many genes as its shape has parameters.
pub proof fn lemma_network_genes_len(network: NetworkView)
    requires
        network_wf(network),
    ensures
        network_genes(network).len() == parameter_count(shape(network)),
    decreases network.len(),
{
    let last = network.last();
    let rest = network.drop_last();
    lemma_layer_genes_len(last, layer_inputs(last));
    if network.len() == 1 {
        assert(network_genes(rest) =~= Seq::<u32>::empty());
        assert(parameter_count(shape(network).drop_last()) == 0);
    } else {
        lemma_network_genes_len(rest);
        assert(shape(network).drop_last() =~= shape(rest));
    }
}

/// Two layers of the same size, whose neurons have `inputs` weights each, are
/// the same layer where their genes are the same.
pub proof fn lemma_layer_determined(a: LayerView, b: LayerView, inputs: nat)
    requires
        a.len() == b.len(),
        forall|j: int| 0 <= j < a.len() ==> (#[trigger] a[j]).weights.len() == inputs,
        forall|j: int| 0 <= j < b.len() ==> (#[trigger] b[j]).weights.len() == inputs,
        layer_genes(a) == layer_genes(b),
    ensures
        a == b,
    decreases a.len(),
{
    if a.len() == 0 {
        assert(a =~= b);
    } else {
        lemma_layer_genes_len(a.drop_last(), inputs);
        lemma_layer_genes_len(b.drop_last(), inputs);
        lemma_split_equal(
            layer_genes(a.drop_last()),
            neuron_genes(a.last()),
            layer_genes(b.drop_last()),
            neuron_genes(b.last()),
        );
        lemma_layer_determined(a.drop_last(), b.drop_last(), inputs);
        assert(a.last().weights =~= neuron_genes(a.last()).drop_last());
        assert(b.last().weights =~= neuron_genes(b.last()).drop_last());
        assert(a.last().bias == neuron_genes(a.last()).last());
        assert(b.last().bias == neuron_genes(b.last()).last());
        assert(a.last() =~= b.last());
        assert(a =~= a.drop_last().push(a.last()));
        assert(b =~= b.drop_last().push(b.last()));
    }
}

/// Two sequences of well-formed layers that agree, layer by layer, on the
/// number of neurons and of inputs are the same where their genes are the same.
proof fn lemma_layers_determined(a: NetworkView, b: NetworkView)
    requires
        a.len() == b.len(),
        forall|l: int| 0 <= l < a.len() ==> layer_wf(#[trigger] a[l]),
        forall|l: int| 0 <= l < b.len() ==> layer_wf(#[trigger] b[l]),
        forall|l: int|
            0 <= l < a.len() ==> (#[trigger] a[l]).len() == b[l].len() && layer_inputs(a[l]) == layer_inputs(
                b[l],
            ),
        network_genes(a) == network_genes(b),
    ensures
        a == b,
    decreases a.len(),
{
    if a.len() == 0 {
        assert(a =~= b);
    } else {
        let last_a = a.last();
        let last_b = b.last();
        let inputs = layer_inputs(last_a);
        assert(layer_wf(last_a) && layer_wf(last_b));
        assert(last_a.len() == last_b.len() && layer_inputs(last_b) == inputs);
        lemma_layer_genes_len(last_a, inputs);
        lemma_layer_genes_len(last_b, inputs);
        let rest_a = network_genes(a.drop_last());
        let rest_b = network_genes(b.drop_last());
        assert(rest_a.len() + layer_genes(last_a).len() == network_genes(a).len());
        assert(rest_b.len() + layer_genes(last_b).len() == network_genes(b).len());
        lemma_split_equal(rest_a, layer_genes(last_a), rest_b, layer_genes(last_b));
        lemma_layer_determined(last_a, last_b, inputs);
        assert forall|l: int| 0 <= l < a.drop_last().len() implies (#[trigger] a.drop_last()[l]).len()
            == b.drop_last()[l].len() && layer_inputs(a.drop_last()[l]) == layer_inputs(
            b.drop_last()[l],
        ) by {
            assert(a.drop_last()[l] == a[l]);
            assert(b.drop_last()[l] == b[l]);
        }
        assert forall|l: int| 0 <= l < a.drop_last().len() implies layer_wf(
            #[trigger] a.drop_last()[l],
        ) by {
            assert(a.drop_last()[l] == a[l]);
        }
        assert forall|l: int| 0 <= l < b.drop_last().len() implies layer_wf(
            #[trigger] b.drop_last()[l],
        ) by {
            assert(b.drop_last()[l] == b[l]);
        }
        lemma_layers_determined(a.drop_last(), b.drop_last());
        assert(a =~= a.drop_last().push(last_a));
        assert(b =~= b.drop_last().push(last_b));
    }
}

/// The encoding loses nothing: two well-formed networks of the same shape
/// that have the same genes are the same network.
pub proof fn lemma_network_determined(a: NetworkView, b: NetworkView)
    requires
        network_wf(a),
        network_wf(b),
        shape(a) == shape(b),
        network_genes(a) == network_genes(b),
    ensures
        a == b,
{
    assert(a.len() + 1 == shape(a).len());
    assert(b.len() + 1 == shape(b).len());
    assert forall|l: int| 0 <= l < a.len() implies (#[trigger] a[l]).len() == b[l].len() && layer_inputs(
        a[l],
    ) == layer_inputs(b[l]) by {
        assert(shape(a)[l + 1] == a[l].len());
        assert(shape(b)[l + 1] == b[l].len());
        if l == 0 {
            assert(shape(a)[0] == layer_inputs(a[0]));
            assert(shape(b)[0] == layer_inputs(b[0]));
        } else {
            assert(shape(a)[l] == a[l - 1].len());
            assert(shape(b)[l] == b[l - 1].len());
        }
    }
    lemma_layers_determined(a, b);
}

/// `fire` may answer `output` for a neuron like `neuron` that is shown `inputs`.
pub open spec fn fires<F: Fn(&Neuron, &Vec<u32>) -> u32>(
    fire: F,
    neuron: NeuronView,
    inputs: Seq<u32>,
    output: u32,
) -> bool {
    exists|unit: Neuron, signals: Vec<u32>|
        unit@ == neuron && signals@ == inputs && #[trigger] fire.ensures((&unit, &signals), output)
}

/// `fire` may answer `outputs`, neuron by neuron, for a layer that is shown
/// `inputs`.
pub open spec fn layer_fires<F: Fn(&Neuron, &Vec<u32>) -> u32>(
    fire: F,
    layer: LayerView,
    inputs: Seq<u32>,
    outputs: Seq<u32>,
) -> bool {
    &&& outputs.len() == layer.len()
    &&& forall|j: int| 0 <= j < layer.len() ==> fires(fire, #[trigger] layer[j], inputs, outputs[j])
}

/// `fire` may lead from `inputs` to `outputs` through the layers of `network`:
/// what one layer answers is what the next is shown, and what the last layer
/// answers is the output.
pub open spec fn propagates<F: Fn(&Neuron, &Vec<u32>) -> u32>(
    fire: F,
    network: NetworkView,
    inputs: Seq<u32>,
    outputs: Seq<u32>,
) -> bool
    decreases network.len(),
{
    if network.len() == 0 {
        outputs == inputs
    } else {
        exists|hidden: Seq<u32>|
            propagates(fire, network.drop_last(), inputs, hidden) && #[trigger] layer_fires(
                fire,
                network.last(),
                hidden,
                outputs,
            )
    }
}

/// `fire` can be called on every neuron with as many inputs as it has weights.
pub open spec fn fires_on_all<F: Fn(&Neuron, &Vec<u32>) -> u32>(fire: F) -> bool {
    forall|unit: Neuron, signals: Vec<u32>|
        unit@.weights.len() == signals@.len() ==> #[trigger] fire.requires((&unit, &signals))
}

/// Every weight and bias of `layer` is a value that `draw` may give.
pub open spec fn layer_drawn<D: Fn(&mut ChaCha8Rng) -> u32>(draw: D, layer: LayerView) -> bool {
    forall|j: int|
        0 <= j < layer.len() ==> {
            &&& may_draw(draw, (#[trigger] layer[j]).bias)
            &&& forall|i: int| 0 <= i < layer[j].weights.len() ==> may_draw(draw, #[trigger] layer[j].weights[i])
        }
}

/// Every weight and bias of `network` is a value that `draw` may give.
pub open spec fn network_drawn<D: Fn(&mut ChaCha8Rng) -> u32>(draw: D, network: NetworkView) -> bool {
    forall|l: int| 0 <= l < network.len() ==> layer_drawn(draw, #[trigger] network[l])
}

/// What building a network of random parameters may give: a well-formed
/// network of the shape that `topology` names, with parameters that `draw`
/// gave, where the topology is valid, and a refusal where it is not.
pub open spec fn randomized<D: Fn(&mut ChaCha8Rng) -> u32>(
    draw: D,
    topology: Seq<LayerTopology>,
    result: Result<Network, Error>,
) -> bool {
    match result {
        Ok(network) => {
            &&& valid_sizes(sizes(topology))
            &&& network.wf()
            &&& shape(network@) == sizes(topology)
            &&& network_drawn(draw, network@)
        },
        Err(error) => error == Error::InvalidTopology && !valid_sizes(sizes(topology)),
    }
}

/// Round trip: a network decoded from genes, encoded again and decoded once
/// more is the network it was, and so answers every input as it did, whatever
/// the neurons compute.
pub proof fn lemma_round_trip<F: Fn(&Neuron, &Vec<u32>) -> u32>(
    topology: Seq<LayerTopology>,
    genes: Seq<u32>,
    network: Network,
    rebuilt: Network,
    fire: F,
    inputs: Seq<u32>,
    outputs: Seq<u32>,
)
    requires
        decoded(topology, genes, Ok(network)),
        decoded(topology, network_genes(network@), Ok(rebuilt)),
    ensures
        network_genes(network@) == genes,
        rebuilt@ == network@,
        propagates(fire, rebuilt@, inputs, outputs) == propagates(fire, network@, inputs, outputs),
{
    lemma_network_determined(network@, rebuilt@);
}

/// The views of a sequence of neurons.
pub open spec fn neuron_views(neurons: Seq<Neuron>) -> LayerView {
    neurons.map_values(|neuron: Neuron| neuron@)
}

/// The views of a sequence of layers.
pub open spec fn layer_views(layers: Seq<Layer>) -> NetworkView {
    layers.map_values(|layer: Layer| layer@)
}

/// One unit of a layer.
#[derive(Clone, Debug)]
pub struct Neuron {
    bias: u32,
    weights: Vec<u32>,
}

impl View for Neuron {
    type V = NeuronView;

    closed spec fn view(&self) -> NeuronView {
        NeuronView { bias: self.bias, weights: self.weights@ }
    }
}

impl Neuron {
    /// A neuron has at least one weight.
    pub open spec fn wf(&self) -> bool {
        self@.weights.len() > 0
    }

    /// The neuron with the given bias and weights.
    pub fn new(bias: u32, weights: Vec<u32>) -> (neuron: Neuron)
        requires
            weights@.len() > 0,
        ensures
            neuron@ == (NeuronView { bias, weights: weights@ }),
            neuron.wf(),
    {
        Neuron { bias, weights }
    }

    /// The bias of the neuron.
    pub fn bias(&self) -> (bias: u32)
        ensures
            bias == self@.bias,
    {
        self.bias
    }

    /// The weights of the neuron, in input order.
    pub fn weights(&self) -> (weights: &Vec<u32>)
        ensures
            weights@ == self@.weights,
    {
        &self.weights
    }

    /// A neuron with `input_size` weights, its bias drawn first and then its
    /// weights in input order.
    pub fn random<D: Fn(&mut ChaCha8Rng) -> u32>(rng: &mut ChaCha8Rng, draw: &D, input_size: usize) -> (neuron:
        Neuron)
        requires
            input_size > 0,
            draws_always(*draw),
        ensures
            neuron.wf(),
            neuron@.weights.len() == input_size,
            may_draw(*draw, neuron@.bias),
            forall|i: int| 0 <= i < input_size ==> may_draw(*draw, #[trigger] neuron@.weights[i]),
    {
        let bias = draw(rng);
        let mut weights: Vec<u32> = Vec::new();
        let mut i: usize = 0;
        while i < input_size
            invariant
                i <= input_size,
                weights@.len() == i,
                draws_always(*draw),
                forall|k: int| 0 <= k < i ==> may_draw(*draw, #[trigger] weights@[k]),
            decreases input_size - i,
        {
            let weight = draw(rng);
            weights.push(weight);
            i += 1;
        }
        Neuron { bias, weights }
    }

    /// What the neuron answers to `inputs`, as `fire` computes it.
    pub fn propagate<F: Fn(&Neuron, &Vec<u32>) -> u32>(&self, inputs: &Vec<u32>, fire: &F) -> (output: u32)
        requires
            inputs@.len() == self@.weights.len(),
            fires_on_all(*fire),
        ensures
            fires(*fire, self@, inputs@, output),
    {
        fire(self, inputs)
    }
}

/// One layer of a network.
#[derive(Clone, Debug)]
pub struct Layer {
    neurons: Vec<Neuron>,
}

impl View for Layer {
    type V = LayerView;

    closed spec fn view(&self) -> LayerView {
        neuron_views(self.neurons@)
    }
}

impl Layer {
    /// The layer is well formed.
    pub open spec fn wf(&self) -> bool {
        layer_wf(self@)
    }

    /// The layer of the given neurons.
    pub fn new(neurons: Vec<Neuron>) -> (layer: Layer)
        requires
            layer_wf(neuron_views(neurons@)),
        ensures
            layer@ == neuron_views(neurons@),
            layer.wf(),
    {
        Layer { neurons }
    }

    /// The neurons of the layer, in order.
    pub fn neurons(&self) -> (neurons: &Vec<Neuron>)
        ensures
            neuron_views(neurons@) == self@,
    {
        &self.neurons
    }

    /// A layer of `output_size` neurons with `input_size` weights each, drawn
    /// neuron by neuron.
    pub fn random<D: Fn(&mut ChaCha8Rng) -> u32>(
        rng: &mut ChaCha8Rng,
        draw: &D,
        input_size: usize,
        output_size: usize,
    ) -> (layer: Layer)
        requires
            input_size > 0,
            output_size > 0,
            draws_always(*draw),
        ensures
            layer.wf(),
            layer@.len() == output_size,
            layer_inputs(layer@) == input_size,
            layer_drawn(*draw, layer@),
    {
        let mut neurons: Vec<Neuron> = Vec::new();
        let mut j: usize = 0;
        while j < output_size
            invariant
                j <= output_size,
                input_size > 0,
                neurons@.len() == j,
                draws_always(*draw),
                forall|k: int| 0 <= k < j ==> (#[trigger] neurons@[k])@.weights.len() == input_size,
                layer_drawn(*draw, neuron_views(neurons@)),
            decreases output_size - j,
        {
            let neuron = Neuron::random(rng, draw, input_size);
            let ghost earlier = neuron_views(neurons@);
            neurons.push(neuron);
            proof {
                let views = neuron_views(neurons@);
                assert forall|k: int| 0 <= k < views.len() implies {
                    &&& may_draw(*draw, (#[trigger] views[k]).bias)
                    &&& forall|i: int|
                        0 <= i < views[k].weights.len() ==> may_draw(*draw, #[trigger] views[k].weights[i])
                } by {
                    if k < j {
                        assert(views[k] == earlier[k]);
                    } else {
                        assert(views[k] == neuron@);
                    }
                }
            }
            j += 1;
        }
        proof {
            let views = neuron_views(neurons@);
            assert(views[0] == neurons@[0]@);
            assert forall|k: int| 0 <= k < views.len() implies (#[trigger] views[k]).weights.len()
                == layer_inputs(views) by {
                assert(views[k] == neurons@[k]@);
            }
        }
        Layer { neurons }
    }

    /// What the layer answers to `inputs`: the answer of each neuron, in order.
    pub fn propagate<F: Fn(&Neuron, &Vec<u32>) -> u32>(&self, inputs: Vec<u32>, fire: &F) -> (outputs: Vec<
        u32,
    >)
        requires
            self.wf(),
            inputs@.len() == layer_inputs(self@),
            fires_on_all(*fire),
        ensures
            layer_fires(*fire, self@, inputs@, outputs@),
    {
        let mut outputs: Vec<u32> = Vec::new();
        let mut j: usize = 0;
        while j < self.neurons.len()
            invariant
                j <= self.neurons@.len(),
                self.wf(),
                inputs@.len() == layer_inputs(self@),
                fires_on_all(*fire),
                outputs@.len() == j,
                forall|k: int| 0 <= k < j ==> fires(*fire, #[trigger] self@[k], inputs@, outputs@[k]),
            decreases self.neurons@.len() - j,
        {
            assert(self@[j as int] == self.neurons@[j as int]@);
            let output = self.neurons[j].propagate(&inputs, fire);
            outputs.push(output);
            j += 1;
        }
        outputs
    }
}

/// A feed-forward network.
#[derive(Clone, Debug)]
pub struct Network {
    layers: Vec<Layer>,
}

impl View for Network {
    type V = NetworkView;

    closed spec fn view(&self) -> NetworkView {
        layer_views(self.layers@)
    }
}

impl Network {
    /// The network is well formed.
    pub open spec fn wf(&self) -> bool {
        network_wf(self@)
    }

    /// The network of the given layers, from the input side.
    pub fn new(layers: Vec<Layer>) -> (network: Network)
        requires
            network_wf(layer_views(layers@)),
        ensures
            network@ == layer_views(layers@),
            network.wf(),
    {
        Network { layers }
    }

    /// The layers of the network, from the input side.
    pub fn layers(&self) -> (layers: &Vec<Layer>)
        ensures
            layer_views(layers@) == self@,
    {
        &self.layers
    }

    /// A network of the given topology whose weights and biases are drawn
    /// with `draw`, layer by layer from the input side.
    pub fn random<D: Fn(&mut ChaCha8Rng) -> u32>(rng: &mut ChaCha8Rng, draw: &D, layers: &[LayerTopology]) -> (result:
        Result<Network, Error>)
        requires
            draws_always(*draw),
        ensures
            randomized(*draw, layers@, result),
    {
        if !Self::valid_topology(layers) {
            return Err(Error::InvalidTopology);
        }
        let n = layers.len();
        let ghost all = sizes(layers@);
        let mut built: Vec<Layer> = Vec::new();
        let mut l: usize = 1;
        while l < n
            invariant
                1 <= l <= n,
                n == layers@.len(),
                all == sizes(layers@),
                valid_sizes(all),
                draws_always(*draw),
                built@.len() == l - 1,
                forall|k: int|
                    0 <= k < built@.len() ==> {
                        &&& layer_wf((#[trigger] built@[k])@)
                        &&& built@[k]@.len() == all[k + 1]
                        &&& layer_inputs(built@[k]@) == all[k]
                        &&& layer_drawn(*draw, built@[k]@)
                    },
            decreases n - l,
        {
            assert(all[l as int] == layers@[l as int].neurons);
            assert(all[l - 1] == layers@[l - 1].neurons);
            let layer = Layer::random(rng, draw, layers[l - 1].neurons, layers[l].neurons);
            built.push(layer);
            l += 1;
        }
        proof {
            let views = layer_views(built@);
            assert forall|k: int| 0 <= k < views.len() implies layer_wf(#[trigger] views[k])
                && layer_drawn(*draw, views[k]) by {
                assert(views[k] == built@[k]@);
            }
            assert forall|k: int| 0 < k < views.len() implies layer_inputs(#[trigger] views[k]) == views[k
                - 1].len() by {
                assert(views[k] == built@[k]@);
                assert(views[k - 1] == built@[k - 1]@);
            }
            assert(views[0] == built@[0]@);
            assert forall|i: int| 0 <= i < all.len() implies shape(views)[i] == all[i] by {
                if i > 0 {
                    assert(views[i - 1] == built@[i - 1]@);
                }
            }
            assert(shape(views) =~= all);
        }
        Ok(Network { layers: built })
    }

    /// What the network answers to `inputs`: the input goes through the
    /// layers in order, each layer shown what the layer before it answered.
    pub fn propagate<F: Fn(&Neuron, &Vec<u32>) -> u32>(&self, inputs: Vec<u32>, fire: &F) -> (outputs: Vec<
        u32,
    >)
        requires
            self.wf(),
            inputs@.len() == shape(self@)[0],
            fires_on_all(*fire),
        ensures
            propagates(*fire, self@, inputs@, outputs@),
            outputs@.len() == shape(self@).last(),
    {
        let ghost first = inputs@;
        let mut signals = inputs;
        let mut l: usize = 0;
        assert(self@.take(0) =~= Seq::<LayerView>::empty());
        while l < self.layers.len()
            invariant
                l <= self.layers@.len(),
                self.wf(),
                fires_on_all(*fire),
                propagates(*fire, self@.take(l as int), first, signals@),
                l < self.layers@.len() ==> signals@.len() == layer_inputs(self@[l as int]),
                l > 0 ==> signals@.len() == self@[l - 1].len(),
            decreases self.layers@.len() - l,
        {
            let ghost hidden = signals@;
            assert(self@[l as int] == self.layers@[l as int]@);
            signals = self.layers[l].propagate(signals, fire);
            proof {
                assert(self@.take(l + 1).drop_last() =~= self@.take(l as int));
                assert(self@.take(l + 1).last() == self@[l as int]);
                assert(propagates(*fire, self@.take(l + 1).drop_last(), first, hidden));
                assert(layer_fires(*fire, self@.take(l + 1).last(), hidden, signals@));
                assert(propagates(*fire, self@.take(l + 1), first, signals@));
            }
            l += 1;
        }
        assert(self@.take(l as int) =~= self@);
        signals
    }

    /// The genes of the network: layer by layer, neuron by neuron, the weights
    /// of a neuron in input order and then its bias.
    pub fn weights(&self) -> (genes: Vec<u32>)
        ensures
            genes@ == network_genes(self@),
    {
        let mut genes: Vec<u32> = Vec::new();
        let mut l: usize = 0;
        assert(self@.take(0) =~= Seq::<LayerView>::empty());
        while l < self.layers.len()
            invariant
                l <= self.layers@.len(),
                genes@ == network_genes(self@.take(l as int)),
            decreases self.layers@.len() - l,
        {
            let layer = &self.layers[l];
            let ghost before = genes@;
            let mut j: usize = 0;
            assert(layer@.take(0) =~= Seq::<NeuronView>::empty());
            while j < layer.neurons.len()
                invariant
                    j <= layer.neurons@.len(),
                    genes@ == before + layer_genes(layer@.take(j as int)),
                decreases layer.neurons@.len() - j,
            {
                let neuron = &layer.neurons[j];
                let ghost start = genes@;
                let mut i: usize = 0;
                while i < neuron.weights.len()
                    invariant
                        i <= neuron.weights@.len(),
                        genes@ == start + neuron.weights@.take(i as int),
                    decreases neuron.weights@.len() - i,
                {
                    genes.push(neuron.weights[i]);
                    i += 1;
                    assert(genes@ =~= start + neuron.weights@.take(i as int));
                }
                genes.push(neuron.bias);
                proof {
                    assert(neuron.weights@.take(i as int) =~= neuron.weights@);
                    assert(layer@.take(j + 1).drop_last() =~= layer@.take(j as int));
                    assert(layer@.take(j + 1).last() == neuron@);
                    assert(genes@ =~= before + layer_genes(layer@.take(j + 1)));
                }
                j += 1;
            }
            proof {
                assert(layer@.take(j as int) =~= layer@);
                assert(self@.take(l + 1).drop_last() =~= self@.take(l as int));
                assert(self@.take(l + 1).last() == layer@);
                assert(genes@ =~= network_genes(self@.take(l + 1)));
            }
            l += 1;
        }
        assert(self@.take(l as int) =~= self@);
        genes
    }

    /// Tells whether `layers` names at least two layer sizes, none of them zero.
    pub fn valid_topology(layers: &[LayerTopology]) -> (valid: bool)
        ensures
            valid == valid_sizes(sizes(layers@)),
    {
        if layers.len() < 2 {
            return false;
        }
        let mut i: usize = 0;
        while i < layers.len()
            invariant
                i <= layers@.len(),
                forall|k: int| 0 <= k < i ==> #[trigger] sizes(layers@)[k] > 0,
            decreases layers@.len() - i,
        {
            if layers[i].neurons == 0 {
                assert(sizes(layers@)[i as int] == 0);
                return false;
            }
            i += 1;
        }
        true
    }

    /// The number of parameters of a network with the given topology, or
    /// `None` where that number is beyond what a `usize` holds.
    pub fn count_parameters(layers: &[LayerTopology]) -> (count: Option<usize>)
        ensures
            match count {
                Some(count) => count == parameter_count(sizes(layers@)),
                None => parameter_count(sizes(layers@)) > usize::MAX,
            },
    {
        let n = layers.len();
        if n < 2 {
            return Some(0);
        }
        let ghost all = sizes(layers@);
        let mut count: usize = 0;
        let mut l: usize = 1;
        while l < n
            invariant
                1 <= l <= n,
                n == layers@.len(),
                all == sizes(layers@),
                count == parameter_count(all.take(l as int)),
            decreases n - l,
        {
            let inputs = layers[l - 1].neurons;
            let outputs = layers[l].neurons;
            proof {
                lemma_parameter_count_step(all, l as int);
                lemma_parameter_count_prefix(all, l + 1);
            }
            if outputs > 0 {
                let per_neuron = match inputs.checked_add(1) {
                    Some(per_neuron) => per_neuron,
                    None => {
                        assert(outputs * (inputs + 1) > usize::MAX) by (nonlinear_arith)
                            requires
                                outputs >= 1,
                                inputs + 1 > usize::MAX,
                        ;
                        return None;
                    },
                };
                let parameters = match outputs.checked_mul(per_neuron) {
                    Some(parameters) => parameters,
                    None => {
                        return None;
                    },
                };
                count = match count.checked_add(parameters) {
                    Some(count) => count,
                    None => {
                        return None;
                    },
                };
            } else {
                assert(outputs * (inputs + 1) == 0) by (nonlinear_arith)
                    requires
                        outputs == 0,
                ;
            }
            l += 1;
        }
        assert(all.take(l as int) =~= all);
        Some(count)
    }

    /// Rebuilds a network from its genes: `layers` gives the layer sizes, and
    /// `chromosome` the weights and biases in the order of `weights`.
    pub fn from_chromosome(layers: &[LayerTopology], chromosome: Chromosome) -> (result: Result<
        Network,
        Error,
    >)
        ensures
            decoded(layers@, chromosome@, result),
    {
        if !Self::valid_topology(layers) {
            return Err(Error::InvalidTopology);
        }
        let length = chromosome.len();
        match Self::count_parameters(layers) {
            Some(count) => {
                if count != length {
                    return Err(Error::EncodingMismatch);
                }
            },
            None => {
                return Err(Error::EncodingMismatch);
            },
        }
        let genes = chromosome.genes();
        let n = layers.len();
        let ghost all = sizes(layers@);
        let mut built: Vec<Layer> = Vec::new();
        let mut pos: usize = 0;
        let mut l: usize = 1;
        assert(genes@.take(0) =~= Seq::<u32>::empty());
        assert(layer_views(built@) =~= Seq::<LayerView>::empty());
        while l < n
            invariant
                1 <= l <= n,
                n == layers@.len(),
                all == sizes(layers@),
                valid_sizes(all),
                genes@.len() == parameter_count(all),
                built@.len() == l - 1,
                pos == parameter_count(all.take(l as int)),
                pos <= genes@.len() == length,
                network_genes(layer_views(built@)) == genes@.take(pos as int),
                forall|k: int|
                    0 <= k < built@.len() ==> {
                        &&& layer_wf((#[trigger] built@[k])@)
                        &&& built@[k]@.len() == all[k + 1]
                        &&& layer_inputs(built@[k]@) == all[k]
                    },
            decreases n - l,
        {
            let inputs = layers[l - 1].neurons;
            let outputs = layers[l].neurons;
            let ghost layer_start = pos as int;
            let ghost layer_end = pos + outputs * (inputs + 1);
            proof {
                lemma_parameter_count_step(all, l as int);
                lemma_parameter_count_prefix(all, l + 1);
                assert(all[l as int] == outputs);
                assert(all[l - 1] == inputs);
            }
            let mut neurons: Vec<Neuron> = Vec::new();
            let mut j: usize = 0;
            assert(neuron_views(neurons@) =~= Seq::<NeuronView>::empty());
            assert(genes@.subrange(layer_start, pos as int) =~= Seq::<u32>::empty());
            while j < outputs
                invariant
                    j <= outputs,
                    inputs > 0,
                    neurons@.len() == j,
                    0 <= layer_start <= pos,
                    pos + (outputs - j) * (inputs + 1) == layer_end,
                    layer_end <= genes@.len() <= usize::MAX,
                    layer_genes(neuron_views(neurons@)) == genes@.subrange(layer_start, pos as int),
                    forall|k: int| 0 <= k < j ==> (#[trigger] neurons@[k])@.weights.len() == inputs,
                decreases outputs - j,
            {
                let ghost neuron_start = pos as int;
                proof {
                    assert((outputs - j) * (inputs + 1) == (outputs - (j + 1)) * (inputs + 1) + (inputs
                        + 1)) by (nonlinear_arith);
                    assert((outputs - (j + 1)) * (inputs + 1) >= 0) by (nonlinear_arith)
                        requires
                            outputs - (j + 1) >= 0,
                            inputs + 1 >= 0,
                    ;
                }
                let mut weights: Vec<u32> = Vec::new();
                let mut i: usize = 0;
                assert(genes@.subrange(neuron_start, pos as int) =~= Seq::<u32>::empty());
                while i < inputs
                    invariant
                        i <= inputs,
                        weights@.len() == i,
                        pos == neuron_start + i,
                        0 <= neuron_start,
                        neuron_start + inputs + 1 <= genes@.len() <= usize::MAX,
                        weights@ == genes@.subrange(neuron_start, pos as int),
                    decreases inputs - i,
                {
                    weights.push(genes[pos]);
                    pos += 1;
                    i += 1;
                    assert(weights@ =~= genes@.subrange(neuron_start, pos as int));
                }
                let bias = genes[pos];
                pos += 1;
                let neuron = Neuron::new(bias, weights);
                let ghost earlier = neuron_views(neurons@);
                neurons.push(neuron);
                proof {
                    let views = neuron_views(neurons@);
                    assert(views.drop_last() =~= earlier);
                    assert(views.last() == neuron@);
                    assert(neuron_genes(neuron@) =~= genes@.subrange(neuron_start, pos as int));
                    assert(genes@.subrange(layer_start, neuron_start) + genes@.subrange(
                        neuron_start,
                        pos as int,
                    ) =~= genes@.subrange(layer_start, pos as int));
                    assert(layer_genes(views) =~= genes@.subrange(layer_start, pos as int));
                }
                j += 1;
            }
            proof {
                assert((outputs - j) * (inputs + 1) == 0) by (nonlinear_arith)
                    requires
                        outputs - j == 0,
                ;
                let views = neuron_views(neurons@);
                assert(views.len() == outputs);
                assert(views[0] == neurons@[0]@);
                assert forall|k: int| 0 <= k < views.len() implies (#[trigger] views[k]).weights.len()
                    == layer_inputs(views) by {
                    assert(views[k] == neurons@[k]@);
                }
            }
            let layer = Layer::new(neurons);
            let ghost earlier = layer_views(built@);
            built.push(layer);
            proof {
                let views = layer_views(built@);
                assert(views.drop_last() =~= earlier);
                assert(views.last() == layer@);
                assert(genes@.take(layer_start) + genes@.subrange(layer_start, pos as int) =~= genes@.take(
                    pos as int,
                ));
            }
            l += 1;
        }
        proof {
            assert(all.take(l as int) =~= all);
            assert(genes@.take(pos as int) =~= genes@);
            let views = layer_views(built@);
            assert forall|k: int| 0 <= k < views.len() implies layer_wf(#[trigger] views[k]) by {
                assert(views[k] == built@[k]@);
            }
            assert forall|k: int| 0 < k < views.len() implies layer_inputs(#[trigger] views[k]) == views[k
                - 1].len() by {
                assert(views[k] == built@[k]@);
                assert(views[k - 1] == built@[k - 1]@);
            }
            assert(views[0] == built@[0]@);
            assert forall|i: int| 0 <= i < all.len() implies shape(views)[i] == all[i] by {
                if i > 0 {
                    assert(views[i - 1] == built@[i - 1]@);
                }
            }
            assert(shape(views) =~= all);
        }
        Ok(Network::new(built))
    }

    /// The network as a chromosome, gene for gene as `weights` gives them.
    pub fn to_chromosome(&self) -> (chromosome: Chromosome)
        ensures
            chromosome@ == network_genes(self@),
    {
        Chromosome::new(self.weights())
    }
}

} // verus!
