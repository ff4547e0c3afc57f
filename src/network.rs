//! A fixed-topology feed-forward network, and its canonical flat encoding:
//! layer by layer, neuron by neuron, each neuron as its bias followed by
//! its weights in order.
use vstd::prelude::*;

verus! {

/// The size of one layer of a network's shape.
#[derive(Debug, Clone, Copy, PartialEq, Eq, Structural)]
pub struct LayerTopology {
    pub neurons: usize,
}

/// A bias and one weight per input.
pub struct Neuron<W> {
    bias: W,
    weights: Vec<W>,
}

/// Neurons sharing one input vector; the layer outputs one value per neuron.
pub struct Layer<W> {
    neurons: Vec<Neuron<W>>,
}

/// Layers applied in order, each to the previous one's output.
pub struct Network<W> {
    layers: Vec<Layer<W>>,
}

/// Why a flat sequence does not decode into a network of a given shape.
#[derive(Debug, Clone, Copy, PartialEq, Eq, Structural)]
pub enum DecodeError {
    /// The sequence runs out before every parameter is filled.
    TooFewWeights,
    /// Values are left over once every parameter is filled.
    TooManyWeights,
}

impl<W> Neuron<W> {
    pub closed spec fn spec_bias(&self) -> W {
        self.bias
    }

    pub closed spec fn spec_weights(&self) -> Seq<W> {
        self.weights@
    }

    /// The neuron's parameters in canonical order.
    pub open spec fn flat(&self) -> Seq<W> {
        seq![self.spec_bias()] + self.spec_weights()
    }
}

impl<W> Layer<W> {
    pub closed spec fn spec_neurons(&self) -> Seq<Neuron<W>> {
        self.neurons@
    }
}

impl<W> Network<W> {
    pub closed spec fn spec_layers(&self) -> Seq<Layer<W>> {
        self.layers@
    }

    /// The network's parameters in canonical order.
    pub open spec fn flat(&self) -> Seq<W> {
        flat_layers(self.spec_layers())
    }

    /// The network has the shape that `topology` describes: one layer per
    /// adjacent pair of sizes, each with as many neurons as the second of
    /// the pair, each neuron with as many weights as the first.
    pub open spec fn shaped(&self, topology: Seq<LayerTopology>) -> bool {
        &&& self.spec_layers().len() == layer_count(topology)
        &&& forall|i: int|
            0 <= i < self.spec_layers().len() ==> #[trigger] layer_shaped(
                self.spec_layers()[i],
                topology[i].neurons as nat,
                topology[i + 1].neurons as nat,
            )
    }

    /// Adjacent layers fit: each layer's neurons take as many inputs as the
    /// previous layer has neurons.
    pub open spec fn is_well_formed(&self) -> bool {
        forall|i: int, j: int|
            0 < i < self.spec_layers().len() && 0 <= j < self.spec_layers()[i].spec_neurons().len()
                ==> (#[trigger] self.spec_layers()[i].spec_neurons()[j]).spec_weights().len()
                == self.spec_layers()[i - 1].spec_neurons().len()
    }
}

pub open spec fn layer_shaped<W>(layer: Layer<W>, inputs: nat, outputs: nat) -> bool {
    &&& layer.spec_neurons().len() == outputs
    &&& forall|j: int|
        0 <= j < outputs ==> (#[trigger] layer.spec_neurons()[j]).spec_weights().len() == inputs
}

/// The parameters of a run of neurons, in canonical order.
pub open spec fn flat_neurons<W>(neurons: Seq<Neuron<W>>) -> Seq<W>
    decreases neurons.len(),
{
    if neurons.len() == 0 {
        Seq::empty()
    } else {
        flat_neurons(neurons.drop_last()) + neurons.last().flat()
    }
}

/// The parameters of a run of layers, in canonical order.
pub open spec fn flat_layers<W>(layers: Seq<Layer<W>>) -> Seq<W>
    decreases layers.len(),
{
    if layers.len() == 0 {
        Seq::empty()
    } else {
        flat_layers(layers.drop_last()) + flat_neurons(layers.last().spec_neurons())
    }
}

impl<W: Copy> Neuron<W> {
    pub fn new(bias: W, weights: Vec<W>) -> (r: Self)
        ensures
            r.spec_bias() == bias,
            r.spec_weights() == weights@,
    {
        Neuron { bias, weights }
    }

    pub fn bias(&self) -> (r: W)
        ensures
            r == self.spec_bias(),
    {
        self.bias
    }

    pub fn weights(&self) -> (r: &Vec<W>)
        ensures
            r@ == self.spec_weights(),
    {
        &self.weights
    }
}

impl<W> Layer<W> {
    pub fn new(neurons: Vec<Neuron<W>>) -> (r: Self)
        ensures
            r.spec_neurons() == neurons@,
    {
        Layer { neurons }
    }

    pub fn neurons(&self) -> (r: &Vec<Neuron<W>>)
        ensures
            r@ == self.spec_neurons(),
    {
        &self.neurons
    }
}

impl<W: Copy> Network<W> {
    /// A network of exactly these layers, in order. `is_well_formed` says
    /// whether adjacent layers fit; nothing here checks it.
    pub fn new(layers: Vec<Layer<W>>) -> (r: Self)
        ensures
            r.spec_layers() == layers@,
    {
        Network { layers }
    }

    pub fn layers(&self) -> (r: &Vec<Layer<W>>)
        ensures
            r@ == self.spec_layers(),
    {
        &self.layers
    }

    /// The network's parameters, flattened in canonical order.
    pub fn weights(&self) -> (r: Vec<W>)
        ensures
            r@ == self.flat(),
    {
        let mut out: Vec<W> = Vec::new();
        let mut i: usize = 0;
        while i < self.layers.len()
            invariant
                i <= self.layers@.len(),
                out@ == flat_layers(self.layers@.subrange(0, i as int)),
            decreases self.layers@.len() - i,
        {
            let neurons = &self.layers[i].neurons;
            let ghost before = out@;
            let mut j: usize = 0;
            while j < neurons.len()
                invariant
                    j <= neurons@.len(),
                    out@ == before + flat_neurons(neurons@.subrange(0, j as int)),
                decreases neurons@.len() - j,
            {
                let neuron = &neurons[j];
                let ghost mid = out@;
                out.push(neuron.bias);
                let mut k: usize = 0;
                while k < neuron.weights.len()
                    invariant
                        k <= neuron.weights@.len(),
                        out@ == mid + seq![neuron.bias] + neuron.weights@.subrange(0, k as int),
                    decreases neuron.weights@.len() - k,
                {
                    out.push(neuron.weights[k]);
                    k = k + 1;
                    proof {
                        assert(neuron.weights@.subrange(0, k as int) == neuron.weights@.subrange(
                            0,
                            k - 1,
                        ).push(neuron.weights@[k - 1]));
                    }
                }
                proof {
                    assert(neuron.weights@.subrange(0, k as int) == neuron.weights@);
                    let next = neurons@.subrange(0, j + 1);
                    assert(next.drop_last() == neurons@.subrange(0, j as int));
                    assert(next.last() == *neuron);
                }
                j = j + 1;
            }
            proof {
                assert(neurons@.subrange(0, j as int) == neurons@);
                let next = self.layers@.subrange(0, i + 1);
                assert(next.drop_last() == self.layers@.subrange(0, i as int));
                assert(next.last() == self.layers@[i as int]);
            }
            i = i + 1;
        }
        proof {
            assert(self.layers@.subrange(0, i as int) == self.layers@);
        }
        out
    }

    /// Rebuilds a network of the given topology from parameters in
    /// canonical order, consuming all of them.
    pub fn from_weights(topology: &[LayerTopology], weights: Vec<W>) -> (r: Result<
        Network<W>,
        DecodeError,
    >)
        ensures
            decoded(topology@, weights@, r),
    {
        let ghost t = topology@;
        let nl: usize = if topology.len() < 2 {
            0
        } else {
            topology.len() - 1
        };
        let mut layers: Vec<Layer<W>> = Vec::new();
        let mut pos: usize = 0;
        let mut i: usize = 0;
        while i < nl
            invariant
                nl == layer_count(t),
                i <= nl,
                t == topology@,
                layers@.len() == i,
                pos == prefix_weights(t, i as int),
                pos <= weights@.len(),
                flat_layers(layers@) == weights@.subrange(0, pos as int),
                forall|a: int|
                    0 <= a < i ==> #[trigger] layer_shaped(
                        layers@[a],
                        t[a].neurons as nat,
                        t[a + 1].neurons as nat,
                    ),
            decreases nl - i,
        {
            let inputs = topology[i].neurons;
            let outputs = topology[i + 1].neurons;
            let mut neurons: Vec<Neuron<W>> = Vec::new();
            let mut j: usize = 0;
            while j < outputs
                invariant
                    nl == layer_count(t),
                    i < nl,
                    t == topology@,
                    inputs == t[i as int].neurons,
                    outputs == t[i + 1].neurons,
                    layers@.len() == i,
                    j <= outputs,
                    neurons@.len() == j,
                    pos == prefix_weights(t, i as int) + j * (1 + inputs),
                    pos <= weights@.len(),
                    flat_layers(layers@) + flat_neurons(neurons@) == weights@.subrange(0, pos as int),
                    forall|b: int| 0 <= b < j ==> (#[trigger] neurons@[b]).spec_weights().len() == inputs,
                decreases outputs - j,
            {
                if pos >= weights.len() || weights.len() - pos - 1 < inputs {
                    proof {
                        assert((j + 1) * (1 + inputs) <= outputs * (1 + inputs)) by (nonlinear_arith)
                            requires
                                j < outputs,
                        ;
                        assert(j * (1 + inputs) + (1 + inputs) == (j + 1) * (1 + inputs)) by (nonlinear_arith);
                        lemma_prefix_weights_monotonic(t, i + 1, nl as int);
                    }
                    return Err(DecodeError::TooFewWeights);
                }
                let bias = weights[pos];
                let len = weights.len();
                let mut ws: Vec<W> = Vec::new();
                let mut k: usize = 0;
                while k < inputs
                    invariant
                        k <= inputs,
                        len == weights@.len(),
                        pos + 1 + inputs <= len,
                        ws@ == weights@.subrange(pos + 1, pos + 1 + k),
                    decreases inputs - k,
                {
                    ws.push(weights[pos + 1 + k]);
                    k = k + 1;
                    proof {
                        assert(ws@ == weights@.subrange(pos + 1, pos + 1 + k));
                    }
                }
                let neuron = Neuron { bias, weights: ws };
                let ghost before = neurons@;
                neurons.push(neuron);
                proof {
                    assert(neurons@.drop_last() == before);
                    assert(neurons@.last() == neuron);
                    assert(weights@.subrange(0, pos + 1 + inputs) == weights@.subrange(0, pos as int)
                        + neuron.flat());
                    assert(j * (1 + inputs) + (1 + inputs) == (j + 1) * (1 + inputs)) by (nonlinear_arith);
                    assert forall|b: int| 0 <= b < j + 1 implies (#[trigger] neurons@[b]).spec_weights().len()
                        == inputs by {
                        if b < j {
                            assert(neurons@[b] == before[b]);
                        }
                    }
                }
                pos = pos + 1 + inputs;
                j = j + 1;
            }
            let layer = Layer { neurons };
            let ghost before_layers = layers@;
            layers.push(layer);
            proof {
                assert(layers@.drop_last() == before_layers);
                assert(layers@.last() == layer);
                assert forall|a: int| 0 <= a < i + 1 implies #[trigger] layer_shaped(
                    layers@[a],
                    t[a].neurons as nat,
                    t[a + 1].neurons as nat,
                ) by {
                    if a < i {
                        assert(layers@[a] == before_layers[a]);
                    }
                }
            }
            i = i + 1;
        }
        if pos < weights.len() {
            return Err(DecodeError::TooManyWeights);
        }
        let net = Network { layers };
        proof {
            assert(weights@.subrange(0, pos as int) == weights@);
            lemma_shaped_well_formed(net, t);
        }
        Ok(net)
    }

    /// How many parameters a network of this topology holds; `None` where
    /// that count does not fit in `usize`.
    pub fn weight_count(topology: &[LayerTopology]) -> (r: Option<usize>)
        ensures
            r matches Some(n) ==> n == weight_count(topology@),
            r is None ==> weight_count(topology@) > usize::MAX,
    {
        let ghost t = topology@;
        let nl: usize = if topology.len() < 2 {
            0
        } else {
            topology.len() - 1
        };
        let mut total: usize = 0;
        let mut i: usize = 0;
        while i < nl
            invariant
                nl == layer_count(t),
                t == topology@,
                i <= nl,
                total == prefix_weights(t, i as int),
            decreases nl - i,
        {
            let inputs = topology[i].neurons;
            let outputs = topology[i + 1].neurons;
            let size = if inputs == usize::MAX {
                if outputs == 0 {
                    Some(0usize)
                } else {
                    None
                }
            } else {
                outputs.checked_mul(inputs + 1)
            };
            match size {
                Some(size) => {
                    proof {
                        assert(size == layer_weights(t, i as int)) by (nonlinear_arith)
                            requires
                                layer_weights(t, i as int) == outputs * (1 + inputs),
                                inputs == usize::MAX ==> outputs == 0 && size == 0,
                                inputs < usize::MAX ==> size == outputs * (inputs + 1),
                        ;
                    }
                    match total.checked_add(size) {
                        Some(next) => {
                            total = next;
                        },
                        None => {
                            proof {
                                lemma_prefix_weights_monotonic(t, i + 1, nl as int);
                            }
                            return None;
                        },
                    }
                },
                None => {
                    proof {
                        lemma_prefix_weights_monotonic(t, 0, i as int);
                        assert(prefix_weights(t, 0) == 0);
                        assert(outputs * (1 + inputs) > usize::MAX) by (nonlinear_arith)
                            requires
                                inputs == usize::MAX ==> outputs > 0,
                                inputs < usize::MAX ==> outputs * (inputs + 1) > usize::MAX,
                                outputs >= 0,
                        ;
                        lemma_prefix_weights_monotonic(t, i + 1, nl as int);
                    }
                    return None;
                },
            }
            i = i + 1;
        }
        Some(total)
    }
}

/// How many layers a topology makes: one per adjacent pair of sizes.
pub open spec fn layer_count(topology: Seq<LayerTopology>) -> nat {
    if topology.len() < 2 {
        0
    } else {
        (topology.len() - 1) as nat
    }
}

/// How many parameters layer `i` of a topology holds.
pub open spec fn layer_weights(topology: Seq<LayerTopology>, i: int) -> int {
    topology[i + 1].neurons * (1 + topology[i].neurons)
}

/// How many parameters the first `k` layers of a topology hold.
pub open spec fn prefix_weights(topology: Seq<LayerTopology>, k: int) -> int
    decreases k,
{
    if k <= 0 {
        0
    } else {
        prefix_weights(topology, k - 1) + layer_weights(topology, k - 1)
    }
}

/// How many parameters a network of this topology holds.
pub open spec fn weight_count(topology: Seq<LayerTopology>) -> int {
    prefix_weights(topology, layer_count(topology) as int)
}

/// The whole contract of `Network::from_weights`.
pub open spec fn decoded<W>(
    topology: Seq<LayerTopology>,
    weights: Seq<W>,
    r: Result<Network<W>, DecodeError>,
) -> bool {
    &&& weights.len() < weight_count(topology) <==> r == Err::<Network<W>, DecodeError>(
        DecodeError::TooFewWeights,
    )
    &&& weights.len() > weight_count(topology) <==> r == Err::<Network<W>, DecodeError>(
        DecodeError::TooManyWeights,
    )
    &&& r matches Ok(net) ==> net.shaped(topology) && net.is_well_formed() && net.flat() == weights
}

proof fn lemma_prefix_weights_monotonic(topology: Seq<LayerTopology>, a: int, b: int)
    requires
        0 <= a <= b,
    ensures
        prefix_weights(topology, a) <= prefix_weights(topology, b),
    decreases b - a,
{
    if a < b {
        lemma_prefix_weights_monotonic(topology, a, b - 1);
        let i = b - 1;
        assert(layer_weights(topology, i) >= 0) by (nonlinear_arith)
            requires
                layer_weights(topology, i) == topology[i + 1].neurons * (1 + topology[i].neurons),
                topology[i + 1].neurons >= 0,
                topology[i].neurons >= 0,
        ;
    }
}

proof fn lemma_flat_neurons_len<W>(neurons: Seq<Neuron<W>>, inputs: nat)
    requires
        forall|j: int| 0 <= j < neurons.len() ==> (#[trigger] neurons[j]).spec_weights().len() == inputs,
    ensures
        flat_neurons(neurons).len() == neurons.len() * (1 + inputs),
    decreases neurons.len(),
{
    if neurons.len() > 0 {
        let rest = neurons.drop_last();
        assert forall|j: int| 0 <= j < rest.len() implies (#[trigger] rest[j]).spec_weights().len()
            == inputs by {
            assert(rest[j] == neurons[j]);
        }
        lemma_flat_neurons_len(rest, inputs);
        assert(neurons.last() == neurons[neurons.len() - 1]);
        let m = neurons.len() as int;
        assert((m - 1) * (1 + inputs) + (1 + inputs) == m * (1 + inputs)) by (nonlinear_arith);
    }
}

proof fn lemma_flat_layers_len<W>(layers: Seq<Layer<W>>, topology: Seq<LayerTopology>)
    requires
        layers.len() <= layer_count(topology),
        forall|i: int|
            0 <= i < layers.len() ==> #[trigger] layer_shaped(
                layers[i],
                topology[i].neurons as nat,
                topology[i + 1].neurons as nat,
            ),
    ensures
        flat_layers(layers).len() == prefix_weights(topology, layers.len() as int),
    decreases layers.len(),
{
    if layers.len() > 0 {
        let rest = layers.drop_last();
        assert forall|i: int| 0 <= i < rest.len() implies #[trigger] layer_shaped(
            rest[i],
            topology[i].neurons as nat,
            topology[i + 1].neurons as nat,
        ) by {
            assert(rest[i] == layers[i]);
            assert(layer_shaped(layers[i], topology[i].neurons as nat, topology[i + 1].neurons as nat));
        }
        lemma_flat_layers_len(rest, topology);
        let k = layers.len() - 1;
        assert(layers.last() == layers[k]);
        assert(layer_shaped(layers[k], topology[k].neurons as nat, topology[k + 1].neurons as nat));
        lemma_flat_neurons_len(layers.last().spec_neurons(), topology[k].neurons as nat);
    }
}

/// A network of a topology's shape has adjacent layers that fit.
pub proof fn lemma_shaped_well_formed<W>(net: Network<W>, topology: Seq<LayerTopology>)
    requires
        net.shaped(topology),
    ensures
        net.is_well_formed(),
{
    assert forall|i: int, j: int|
        0 < i < net.spec_layers().len() && 0 <= j < net.spec_layers()[i].spec_neurons().len() implies (
        #[trigger] net.spec_layers()[i].spec_neurons()[j]).spec_weights().len()
        == net.spec_layers()[i - 1].spec_neurons().len() by {
        assert(layer_shaped(net.spec_layers()[i], topology[i].neurons as nat, topology[i + 1].neurons as nat));
        let k = i - 1;
        assert(layer_shaped(net.spec_layers()[k], topology[k].neurons as nat, topology[k + 1].neurons as nat));
    }
}

/// A network of a topology's shape holds exactly that topology's count of
/// parameters.
pub proof fn lemma_shaped_weight_count<W>(net: Network<W>, topology: Seq<LayerTopology>)
    requires
        net.shaped(topology),
    ensures
        net.flat().len() == weight_count(topology),
{
    lemma_flat_layers_len(net.spec_layers(), topology);
}

/// Encoding then decoding is the identity: for any topology and any network
/// of that shape, decoding the network's weights against the topology
/// succeeds and gives a network of that shape with the same weights.
pub proof fn law_weights_round_trip<W>(net: Network<W>, topology: Seq<LayerTopology>)
    requires
        net.shaped(topology),
    ensures
        forall|r: Result<Network<W>, DecodeError>|
            #[trigger] decoded(topology, net.flat(), r) ==> (r matches Ok(back) && back.shaped(
                topology,
            ) && back.flat() == net.flat()),
{
    lemma_shaped_weight_count(net, topology);
    assert forall|r: Result<Network<W>, DecodeError>| #[trigger]
        decoded(topology, net.flat(), r) implies r is Ok by {
        match r {
            Err(DecodeError::TooFewWeights) => {},
            Err(DecodeError::TooManyWeights) => {},
            Ok(_) => {},
        }
    }
}

/// Decoding fails on a sequence that is too short and on one that is too
/// long for the topology; only an exact fit decodes.
pub proof fn law_weight_count_mismatch<W>(topology: Seq<LayerTopology>, weights: Seq<W>)
    ensures
        forall|r: Result<Network<W>, DecodeError>| #[trigger]
            decoded(topology, weights, r) ==> {
                &&& weights.len() < weight_count(topology) ==> r is Err
                &&& weights.len() > weight_count(topology) ==> r is Err
                &&& r is Ok ==> weights.len() == weight_count(topology)
            },
{
}

} // verus!
