//! The feed-forward network as a structure of parameters, and the codec
//! between that structure and a flat chromosome.
//!
//! The canonical order of a network's parameters is: layers in order; within
//! a layer its neurons in order; within a neuron the bias, then the weights
//! in input order.
use vstd::prelude::*;
use crate::chromosome::Chromosome;

verus! {

/// The shape of one layer: how many inputs it reads and how many neurons
/// (outputs) it has.
#[derive(Clone, Copy, Debug)]
pub struct LayerTopology {
    pub input_neurons: usize,
    pub output_neurons: usize,
}

/// One neuron: a bias and one weight per input.
#[derive(Debug)]
pub struct Neuron {
    bias: u32,
    weights: Vec<u32>,
}

/// One layer: its input width and its neurons.
#[derive(Debug)]
pub struct Layer {
    input_size: usize,
    neurons: Vec<Neuron>,
}

/// A stack of layers.
#[derive(Debug)]
pub struct Network {
    layers: Vec<Layer>,
}

/// What a neuron holds.
pub struct NeuronView {
    pub bias: u32,
    pub weights: Seq<u32>,
}

/// What a layer holds.
pub struct LayerView {
    pub input_size: nat,
    pub neurons: Seq<NeuronView>,
}

/// The parameters of one neuron in canonical order.
pub open spec fn neuron_genes(neuron: NeuronView) -> Seq<u32> {
    seq![neuron.bias] + neuron.weights
}

/// The parameters of a run of neurons in canonical order.
pub open spec fn neurons_genes(neurons: Seq<NeuronView>) -> Seq<u32>
    decreases neurons.len(),
{
    if neurons.len() == 0 {
        Seq::empty()
    } else {
        neurons_genes(neurons.drop_last()) + neuron_genes(neurons.last())
    }
}

/// The parameters of a stack of layers in canonical order.
pub open spec fn network_genes(layers: Seq<LayerView>) -> Seq<u32>
    decreases layers.len(),
{
    if layers.len() == 0 {
        Seq::empty()
    } else {
        network_genes(layers.drop_last()) + neurons_genes(layers.last().neurons)
    }
}

/// Every neuron of the layer has one weight per input of the layer.
pub open spec fn layer_well_formed(layer: LayerView) -> bool {
    forall|j: int|
        0 <= j < layer.neurons.len() ==> (#[trigger] layer.neurons[j]).weights.len()
            == layer.input_size
}

/// Every layer is well formed, and each layer's output width is the input
/// width of the layer after it.
pub open spec fn network_well_formed(layers: Seq<LayerView>) -> bool {
    &&& forall|i: int| 0 <= i < layers.len() ==> layer_well_formed(#[trigger] layers[i])
    &&& forall|i: int|
        0 <= i < layers.len() - 1 ==> (#[trigger] layers[i]).neurons.len() == layers[i
            + 1].input_size
}

/// The shape of each layer, as (input width, output width).
pub open spec fn shape_of(layers: Seq<LayerView>) -> Seq<(nat, nat)> {
    Seq::new(layers.len(), |i: int| (layers[i].input_size, layers[i].neurons.len()))
}

/// A topology as a sequence of (input width, output width).
pub open spec fn shape(topology: Seq<LayerTopology>) -> Seq<(nat, nat)> {
    Seq::new(
        topology.len(),
        |i: int| (topology[i].input_neurons as nat, topology[i].output_neurons as nat),
    )
}

/// Each entry's output width is the input width of the entry after it.
pub open spec fn chained(shape: Seq<(nat, nat)>) -> bool {
    forall|i: int| 0 <= i < shape.len() - 1 ==> (#[trigger] shape[i]).1 == shape[i + 1].0
}

/// The number of parameters of a network of the given shape: for each
/// layer, one bias and one weight per input for each of its neurons.
pub open spec fn parameter_count(shape: Seq<(nat, nat)>) -> nat
    decreases shape.len(),
{
    if shape.len() == 0 {
        0
    } else {
        parameter_count(shape.drop_last()) + shape.last().1 * (shape.last().0 + 1)
    }
}

/// What each of a run of neurons holds.
pub open spec fn neurons_view(neurons: Seq<Neuron>) -> Seq<NeuronView> {
    Seq::new(neurons.len(), |j: int| neurons[j]@)
}

/// What each of a stack of layers holds.
pub open spec fn layers_view(layers: Seq<Layer>) -> Seq<LayerView> {
    Seq::new(layers.len(), |i: int| layers[i]@)
}

impl View for Neuron {
    type V = NeuronView;

    closed spec fn view(&self) -> NeuronView {
        NeuronView { bias: self.bias, weights: self.weights@ }
    }
}

impl View for Layer {
    type V = LayerView;

    closed spec fn view(&self) -> LayerView {
        LayerView {
            input_size: self.input_size as nat,
            neurons: neurons_view(self.neurons@),
        }
    }
}

impl View for Network {
    type V = Seq<LayerView>;

    closed spec fn view(&self) -> Seq<LayerView> {
        layers_view(self.layers@)
    }
}

/// The rectifier, on the bit pattern of a single-precision number: a number
/// that is not negative (up to and including positive infinity) passes
/// unchanged; a negative number, negative zero, and a pattern that is no
/// number give zero.
pub open spec fn rectified(bits: u32) -> u32 {
    if bits <= 0x7F80_0000 {
        bits
    } else {
        0
    }
}

impl Neuron {
    /// The activation of a neuron whose weighted sum, bias included, is
    /// `sum`: the sum passed through the rectifier.
    pub fn rectify(sum: u32) -> (output: u32)
        ensures
            output == rectified(sum),
    {
        if sum <= 0x7F80_0000 {
            sum
        } else {
            0
        }
    }

    /// A neuron of the given bias and weights.
    pub fn new(bias: u32, weights: Vec<u32>) -> (neuron: Neuron)
        ensures
            neuron@ == (NeuronView { bias, weights: weights@ }),
    {
        Neuron { bias, weights }
    }

    /// The bias.
    pub fn bias(&self) -> (bias: u32)
        ensures
            bias == self@.bias,
    {
        self.bias
    }

    /// The weights, in input order.
    pub fn weights(&self) -> (weights: &Vec<u32>)
        ensures
            weights@ == self@.weights,
    {
        &self.weights
    }
}

impl Layer {
    /// A layer of the given input width and neurons, each of which has one
    /// weight per input.
    pub fn new(input_size: usize, neurons: Vec<Neuron>) -> (layer: Layer)
        requires
            forall|j: int|
                0 <= j < neurons@.len() ==> (#[trigger] neurons@[j])@.weights.len() == input_size,
        ensures
            layer@.input_size == input_size,
            layer@.neurons == neurons_view(neurons@),
            layer_well_formed(layer@),
    {
        Layer { input_size, neurons }
    }

    /// The input width.
    pub fn input_size(&self) -> (width: usize)
        ensures
            width == self@.input_size,
    {
        self.input_size
    }

    /// The neurons, in order.
    pub fn neurons(&self) -> (neurons: &Vec<Neuron>)
        ensures
            neurons@.len() == self@.neurons.len(),
            forall|j: int| 0 <= j < neurons@.len() ==> (#[trigger] neurons@[j])@ == self@.neurons[j],
    {
        &self.neurons
    }
}

impl Network {
    /// A network of the given layers, which must fit together.
    pub fn new(layers: Vec<Layer>) -> (network: Network)
        requires
            network_well_formed(layers_view(layers@)),
        ensures
            network@ == layers_view(layers@),
            network_well_formed(network@),
    {
        Network { layers }
    }

    /// The layers, in order.
    pub fn layers(&self) -> (layers: &Vec<Layer>)
        ensures
            layers@.len() == self@.len(),
            forall|i: int| 0 <= i < layers@.len() ==> (#[trigger] layers@[i])@ == self@[i],
    {
        &self.layers
    }

    /// The width of the input that the network reads: that of its first
    /// layer. A network without layers reads nothing.
    pub fn input_width(&self) -> (width: Option<usize>)
        ensures
            match width {
                Some(w) => self@.len() > 0 && w == self@[0].input_size,
                None => self@.len() == 0,
            },
    {
        if self.layers.len() == 0 {
            None
        } else {
            Some(self.layers[0].input_size)
        }
    }

    /// The width of the output that the network gives: the number of
    /// neurons of its last layer. A network without layers gives nothing.
    pub fn output_width(&self) -> (width: Option<usize>)
        ensures
            match width {
                Some(w) => self@.len() > 0 && w == self@.last().neurons.len(),
                None => self@.len() == 0,
            },
    {
        let n: usize = self.layers.len();
        if n == 0 {
            None
        } else {
            Some(self.layers[n - 1].neurons.len())
        }
    }

    /// All parameters of the network in canonical order, as a chromosome.
    pub fn flatten(&self) -> (chromosome: Chromosome)
        ensures
            chromosome@ == network_genes(self@),
    {
        let mut genes: Vec<u32> = Vec::new();
        let layer_count: usize = self.layers.len();
        let mut i: usize = 0;
        assert(self@.take(0) =~= Seq::empty());
        while i < layer_count
            invariant
                layer_count == self.layers@.len(),
                layer_count == self@.len(),
                i <= layer_count,
                genes@ == network_genes(self@.take(i as int)),
            decreases layer_count - i,
        {
            let layer = &self.layers[i];
            let neuron_count: usize = layer.neurons.len();
            let ghost done = network_genes(self@.take(i as int));
            let ghost neurons = self@[i as int].neurons;
            assert(neurons.take(0) =~= Seq::empty());
            let mut j: usize = 0;
            while j < neuron_count
                invariant
                    layer_count == self.layers@.len(),
                    i < layer_count,
                    layer == self.layers@[i as int],
                    neuron_count == layer.neurons@.len(),
                    neurons == self@[i as int].neurons,
                    neurons.len() == neuron_count,
                    j <= neuron_count,
                    genes@ == done + neurons_genes(neurons.take(j as int)),
                decreases neuron_count - j,
            {
                let neuron = &layer.neurons[j];
                let weight_count: usize = neuron.weights.len();
                let ghost before = genes@;
                genes.push(neuron.bias);
                let mut k: usize = 0;
                while k < weight_count
                    invariant
                        weight_count == neuron.weights@.len(),
                        k <= weight_count,
                        genes@ == before + seq![neuron.bias] + neuron.weights@.take(k as int),
                    decreases weight_count - k,
                {
                    genes.push(neuron.weights[k]);
                    assert(neuron.weights@.take(k + 1) =~= neuron.weights@.take(k as int).push(
                        neuron.weights@[k as int],
                    ));
                    k += 1;
                }
                proof {
                    assert(neuron.weights@.take(weight_count as int) =~= neuron.weights@);
                    assert(neurons[j as int] == neuron@);
                    assert(neurons.take(j + 1).drop_last() =~= neurons.take(j as int));
                    assert(neurons.take(j + 1).last() == neurons[j as int]);
                    assert(genes@ =~= done + neurons_genes(neurons.take(j + 1)));
                }
                j += 1;
            }
            proof {
                assert(neurons.take(neuron_count as int) =~= neurons);
                assert(self@.take(i + 1).drop_last() =~= self@.take(i as int));
                assert(self@.take(i + 1).last() == self@[i as int]);
            }
            i += 1;
        }
        assert(self@.take(layer_count as int) =~= self@);
        Chromosome::from_iter(genes)
    }

    /// The number of parameters of a network of the given topology, or
    /// `None` where that number does not fit in `usize`.
    pub fn parameter_count(topology: &[LayerTopology]) -> (count: Option<usize>)
        ensures
            match count {
                Some(n) => n == parameter_count(shape(topology@)),
                None => parameter_count(shape(topology@)) > usize::MAX,
            },
    {
        let ghost whole = shape(topology@);
        let entries: usize = topology.len();
        let mut total: usize = 0;
        let mut i: usize = 0;
        assert(whole.take(0) =~= Seq::empty());
        while i < entries
            invariant
                whole == shape(topology@),
                entries == topology@.len(),
                i <= entries,
                total == parameter_count(whole.take(i as int)),
            decreases entries - i,
        {
            let entry = &topology[i];
            proof {
                prefix_count_step(whole, i as int);
                prefix_count_grows(whole, i + 1);
            }
            let per_neuron = match entry.input_neurons.checked_add(1) {
                Some(n) => n,
                None => {
                    // No genome can be this long unless the layer is empty.
                    if entry.output_neurons == 0 {
                        assert(whole[i as int].1 * (whole[i as int].0 + 1) == 0)
                            by (nonlinear_arith)
                            requires
                                whole[i as int].1 == 0,
                        ;
                        i += 1;
                        continue ;
                    }
                    assert(whole[i as int].1 * (whole[i as int].0 + 1) > usize::MAX)
                        by (nonlinear_arith)
                        requires
                            whole[i as int].1 >= 1,
                            whole[i as int].0 + 1 > usize::MAX,
                    ;
                    return None;
                },
            };
            let layer_total = match entry.output_neurons.checked_mul(per_neuron) {
                Some(n) => n,
                None => {
                    return None;
                },
            };
            total = match total.checked_add(layer_total) {
                Some(n) => n,
                None => {
                    return None;
                },
            };
            i += 1;
        }
        assert(whole.take(entries as int) =~= whole);
        Some(total)
    }

    /// Rebuilds the network of the given topology from a chromosome, reading
    /// the genes in canonical order. The topology must fit together and the
    /// chromosome must hold exactly one gene per parameter.
    pub fn decode(topology: &[LayerTopology], chromosome: &Chromosome) -> (network: Network)
        requires
            chained(shape(topology@)),
            chromosome@.len() == parameter_count(shape(topology@)),
        ensures
            network_well_formed(network@),
            shape_of(network@) == shape(topology@),
            network_genes(network@) == chromosome@,
    {
        let ghost whole = shape(topology@);
        let ghost genes = chromosome@;
        let entries: usize = topology.len();
        let gene_count: usize = chromosome.len();
        let mut layers: Vec<Layer> = Vec::new();
        let mut pos: usize = 0;
        let mut i: usize = 0;
        proof {
            assert(whole.take(0) =~= Seq::empty());
            assert(genes.take(0) =~= Seq::empty());
            assert(shape_of(layers_view(layers@)) =~= whole.take(0));
        }
        while i < entries
            invariant
                whole == shape(topology@),
                genes == chromosome@,
                genes.len() == gene_count,
                chained(whole),
                genes.len() == parameter_count(whole),
                entries == topology@.len(),
                i <= entries,
                layers@.len() == i,
                network_well_formed(layers_view(layers@)),
                shape_of(layers_view(layers@)) == whole.take(i as int),
                pos == parameter_count(whole.take(i as int)),
                pos <= genes.len(),
                network_genes(layers_view(layers@)) == genes.take(pos as int),
            decreases entries - i,
        {
            let inputs: usize = topology[i].input_neurons;
            let outputs: usize = topology[i].output_neurons;
            let ghost base = pos;
            proof {
                prefix_count_step(whole, i as int);
                prefix_count_grows(whole, i + 1);
                assert(whole[i as int] == (inputs as nat, outputs as nat));
            }
            let mut neurons: Vec<Neuron> = Vec::new();
            let mut j: usize = 0;
            assert(genes.subrange(base as int, pos as int) =~= Seq::empty());
            while j < outputs
                invariant
                    genes == chromosome@,
                    genes.len() == gene_count,
                    j <= outputs,
                    neurons@.len() == j,
                    forall|x: int|
                        0 <= x < j ==> (#[trigger] neurons@[x])@.weights.len() == inputs,
                    base <= pos,
                    pos == base + j * (inputs + 1),
                    base + outputs * (inputs + 1) <= genes.len(),
                    neurons_genes(neurons_view(neurons@)) == genes.subrange(
                        base as int,
                        pos as int,
                    ),
                decreases outputs - j,
            {
                let ghost start = pos;
                proof {
                    assert((j + 1) * (inputs + 1) == j * (inputs + 1) + (inputs + 1))
                        by (nonlinear_arith);
                    assert((j + 1) * (inputs + 1) <= outputs * (inputs + 1)) by (nonlinear_arith)
                        requires
                            j + 1 <= outputs,
                    ;
                }
                let bias: u32 = chromosome.index(pos);
                pos += 1;
                let mut weights: Vec<u32> = Vec::new();
                let mut k: usize = 0;
                assert(genes.subrange(start + 1, pos as int) =~= Seq::empty());
                while k < inputs
                    invariant
                        genes == chromosome@,
                        genes.len() == gene_count,
                        k <= inputs,
                        weights@.len() == k,
                        pos == start + 1 + k,
                        start + 1 + inputs <= genes.len(),
                        weights@ == genes.subrange(start + 1, pos as int),
                    decreases inputs - k,
                {
                    let weight: u32 = chromosome.index(pos);
                    weights.push(weight);
                    pos += 1;
                    assert(weights@ =~= genes.subrange(start + 1, pos as int));
                    k += 1;
                }
                let neuron = Neuron { bias, weights };
                let ghost earlier = neurons_view(neurons@);
                neurons.push(neuron);
                proof {
                    let now = neurons_view(neurons@);
                    assert(now.drop_last() =~= earlier);
                    assert(now.last() == neuron@);
                    assert(neuron_genes(neuron@) =~= genes.subrange(start as int, pos as int));
                    assert(neurons_genes(now) =~= genes.subrange(base as int, pos as int));
                }
                j += 1;
            }
            let layer = Layer { input_size: inputs, neurons };
            let ghost earlier = layers_view(layers@);
            layers.push(layer);
            proof {
                let now = layers_view(layers@);
                assert(now.drop_last() =~= earlier);
                assert(now.last() == layer@);
                assert(layer@.neurons.len() == outputs);
                assert(layer_well_formed(layer@));
                assert forall|x: int| 0 <= x < now.len() implies layer_well_formed(
                    #[trigger] now[x],
                ) by {
                    if x < i {
                        assert(now[x] == earlier[x]);
                    }
                }
                assert(shape_of(earlier) == whole.take(i as int));
                assert forall|x: int| 0 <= x < now.len() - 1 implies (#[trigger] now[x]).neurons.len()
                    == now[x + 1].input_size by {
                    assert(now[x] == if x < i { earlier[x] } else { layer@ });
                    if x + 1 < i {
                        assert(now[x + 1] == earlier[x + 1]);
                        assert(earlier[x].neurons.len() == earlier[x + 1].input_size);
                    } else {
                        assert(shape_of(earlier)[x] == whole.take(i as int)[x]);
                        assert(whole[x].1 == whole[x + 1].0);
                    }
                }
                assert forall|x: int| 0 <= x < now.len() implies shape_of(now)[x] == whole.take(
                    i + 1,
                )[x] by {
                    if x < i {
                        assert(now[x] == earlier[x]);
                        assert(shape_of(earlier)[x] == whole.take(i as int)[x]);
                    }
                }
                assert(shape_of(now) =~= whole.take(i + 1));
                assert(network_genes(now) =~= genes.take(pos as int));
            }
            i += 1;
        }
        proof {
            assert(whole.take(entries as int) =~= whole);
            assert(genes.take(pos as int) =~= genes);
        }
        Network { layers }
    }
}

/// The parameters of the first `n + 1` layers are those of the first `n`
/// and those of the layer after them.
pub proof fn prefix_count_step(shape: Seq<(nat, nat)>, n: int)
    requires
        0 <= n < shape.len(),
    ensures
        parameter_count(shape.take(n + 1)) == parameter_count(shape.take(n)) + shape[n].1 * (
        shape[n].0 + 1),
{
    assert(shape.take(n + 1).drop_last() =~= shape.take(n));
    assert(shape.take(n + 1).last() == shape[n]);
}

/// No prefix of a topology has more parameters than the whole.
pub proof fn prefix_count_grows(shape: Seq<(nat, nat)>, n: int)
    requires
        0 <= n <= shape.len(),
    ensures
        parameter_count(shape.take(n)) <= parameter_count(shape),
    decreases shape.len() - n,
{
    if n == shape.len() {
        assert(shape.take(n) =~= shape);
    } else {
        prefix_count_step(shape, n);
        prefix_count_grows(shape, n + 1);
    }
}

/// A run of neurons with `width` weights each holds one bias and `width`
/// weights per neuron.
pub proof fn neurons_genes_len(neurons: Seq<NeuronView>, width: nat)
    requires
        forall|j: int| 0 <= j < neurons.len() ==> (#[trigger] neurons[j]).weights.len() == width,
    ensures
        neurons_genes(neurons).len() == neurons.len() * (width + 1),
    decreases neurons.len(),
{
    if neurons.len() > 0 {
        neurons_genes_len(neurons.drop_last(), width);
        assert((neurons.len() - 1) * (width + 1) + (width + 1) == neurons.len() * (width + 1))
            by (nonlinear_arith);
    } else {
        assert(0 * (width + 1) == 0) by (nonlinear_arith);
    }
}

/// Two runs of as many neurons, all of one width, that hold the same
/// parameters in canonical order are the same run.
pub proof fn neurons_genes_are_injective(
    first: Seq<NeuronView>,
    second: Seq<NeuronView>,
    width: nat,
)
    requires
        first.len() == second.len(),
        forall|j: int| 0 <= j < first.len() ==> (#[trigger] first[j]).weights.len() == width,
        forall|j: int| 0 <= j < second.len() ==> (#[trigger] second[j]).weights.len() == width,
        neurons_genes(first) == neurons_genes(second),
    ensures
        first == second,
    decreases first.len(),
{
    if first.len() == 0 {
        assert(first =~= second);
    } else {
        let genes = neurons_genes(first);
        let head_a = neurons_genes(first.drop_last());
        let head_b = neurons_genes(second.drop_last());
        let tail_a = neuron_genes(first.last());
        let tail_b = neuron_genes(second.last());
        neurons_genes_len(first.drop_last(), width);
        neurons_genes_len(second.drop_last(), width);
        assert(head_a =~= genes.take(head_a.len() as int));
        assert(head_b =~= genes.take(head_b.len() as int));
        assert(tail_a =~= genes.skip(head_a.len() as int));
        assert(tail_b =~= genes.skip(head_b.len() as int));
        assert(first.last().bias == tail_a[0]);
        assert(second.last().bias == tail_b[0]);
        assert(first.last().weights =~= tail_a.skip(1));
        assert(second.last().weights =~= tail_b.skip(1));
        assert(first.last() == second.last());
        neurons_genes_are_injective(first.drop_last(), second.drop_last(), width);
        assert(first =~= first.drop_last().push(first.last()));
        assert(second =~= second.drop_last().push(second.last()));
    }
}

/// A well-formed network holds exactly as many parameters as its shape
/// asks for.
pub proof fn genes_fill_the_shape(layers: Seq<LayerView>)
    requires
        network_well_formed(layers),
    ensures
        network_genes(layers).len() == parameter_count(shape_of(layers)),
    decreases layers.len(),
{
    if layers.len() == 0 {
        assert(shape_of(layers) =~= Seq::empty());
    } else {
        let front = layers.drop_last();
        assert(network_well_formed(front)) by {
            assert forall|i: int| 0 <= i < front.len() implies layer_well_formed(
                #[trigger] front[i],
            ) by {
                assert(front[i] == layers[i]);
            }
            assert forall|i: int| 0 <= i < front.len() - 1 implies (#[trigger] front[i]).neurons.len()
                == front[i + 1].input_size by {
                assert(front[i] == layers[i]);
                assert(front[i + 1] == layers[i + 1]);
            }
        }
        genes_fill_the_shape(front);
        assert(shape_of(layers).drop_last() =~= shape_of(front));
        assert(layer_well_formed(layers[layers.len() - 1]));
        neurons_genes_len(layers.last().neurons, layers.last().input_size);
    }
}

/// The codec loses nothing: two well-formed networks of one shape that
/// flatten to the same genes are the same network. So the network that
/// `decode` builds is the only one of the given shape that flattens to the
/// given chromosome, and decoding the flattening of a network gives that
/// network back.
pub proof fn flattening_is_injective(first: Seq<LayerView>, second: Seq<LayerView>)
    requires
        network_well_formed(first),
        network_well_formed(second),
        shape_of(first) == shape_of(second),
        network_genes(first) == network_genes(second),
    ensures
        first == second,
    decreases first.len(),
{
    assert(first.len() == shape_of(first).len());
    assert(second.len() == shape_of(second).len());
    if first.len() == 0 {
        assert(first =~= second);
    } else {
        let last = first.len() - 1;
        let front_a = first.drop_last();
        let front_b = second.drop_last();
        assert(shape_of(first)[last] == shape_of(second)[last]);
        assert(network_well_formed(front_a)) by {
            assert forall|i: int| 0 <= i < front_a.len() implies layer_well_formed(
                #[trigger] front_a[i],
            ) by {
                assert(front_a[i] == first[i]);
            }
            assert forall|i: int| 0 <= i < front_a.len() - 1 implies (
            #[trigger] front_a[i]).neurons.len() == front_a[i + 1].input_size by {
                assert(front_a[i] == first[i]);
                assert(front_a[i + 1] == first[i + 1]);
            }
        }
        assert(network_well_formed(front_b)) by {
            assert forall|i: int| 0 <= i < front_b.len() implies layer_well_formed(
                #[trigger] front_b[i],
            ) by {
                assert(front_b[i] == second[i]);
            }
            assert forall|i: int| 0 <= i < front_b.len() - 1 implies (
            #[trigger] front_b[i]).neurons.len() == front_b[i + 1].input_size by {
                assert(front_b[i] == second[i]);
                assert(front_b[i + 1] == second[i + 1]);
            }
        }
        assert(shape_of(front_a) =~= shape_of(first).drop_last());
        assert(shape_of(front_b) =~= shape_of(second).drop_last());
        genes_fill_the_shape(front_a);
        genes_fill_the_shape(front_b);
        let genes = network_genes(first);
        let head_a = network_genes(front_a);
        let head_b = network_genes(front_b);
        let tail_a = neurons_genes(first.last().neurons);
        let tail_b = neurons_genes(second.last().neurons);
        assert(head_a =~= genes.take(head_a.len() as int));
        assert(head_b =~= genes.take(head_b.len() as int));
        assert(tail_a =~= genes.skip(head_a.len() as int));
        assert(tail_b =~= genes.skip(head_b.len() as int));
        assert(layer_well_formed(first[last]));
        assert(layer_well_formed(second[last]));
        neurons_genes_are_injective(
            first.last().neurons,
            second.last().neurons,
            first.last().input_size,
        );
        assert(first.last() == second.last());
        flattening_is_injective(front_a, front_b);
        assert(first =~= front_a.push(first.last()));
        assert(second =~= front_b.push(second.last()));
    }
}

/// Decoding the flattening of a network, against the network's own shape,
/// gives the network back.
pub proof fn decode_inverts_flatten(
    network: Network,
    topology: &[LayerTopology],
    chromosome: Chromosome,
    rebuilt: Network,
)
    requires
        network_well_formed(network@),
        shape(topology@) == shape_of(network@),
        call_ensures(Network::flatten, (&network,), chromosome),
        call_ensures(Network::decode, (topology, &chromosome), rebuilt),
    ensures
        rebuilt@ == network@,
{
    flattening_is_injective(rebuilt@, network@);
}

/// Flattening the network that was decoded from a chromosome gives the
/// chromosome back, gene for gene.
pub proof fn flatten_inverts_decode(
    topology: &[LayerTopology],
    chromosome: Chromosome,
    network: Network,
    back: Chromosome,
)
    requires
        call_ensures(Network::decode, (topology, &chromosome), network),
        call_ensures(Network::flatten, (&network,), back),
    ensures
        back@ == chromosome@,
{
}

} // verus!
