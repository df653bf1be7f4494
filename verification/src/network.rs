//! A feedforward neural network: an ordered stack of neuron layers, with
//! prediction, crossover and mutation as its three operations.

use vstd::prelude::*;
use vstd::arithmetic::div_mod::{lemma_div_nonincreasing, lemma_div_pos_is_pos};
use crate::fixed::{SCALE, INPUT_MAX, WIDTH_MAX, RATE_ONE, identity};
use crate::neuron::{
    NeuralNetworkActivationFun, NeuralNetworkNeuron, NeuronModel,
    neuron_value, weighted_sum, gene_mix, lemma_dot_prefix_bound, lemma_mix_wf,
};
use crate::rng::Rng;

verus! {

/// Mathematical model of a network: its counts and the models of its
/// neurons, layer by layer.
#[verifier::ext_equal]
pub ghost struct NetworkModel {
    pub input_count: int,
    pub output_count: int,
    pub layers: Seq<Seq<NeuronModel>>,
}

impl NetworkModel {
    /// Width of the vector consumed by layer `l`: the previous layer's
    /// neuron count, or the network's input count for the first layer.
    pub open spec fn width_in(self, l: int) -> int {
        if l == 0 {
            self.input_count
        } else {
            self.layers[l - 1].len() as int
        }
    }

    /// The structural facts that hold of every neuron slot: the neuron is
    /// well formed, consumes exactly the previous layer's output vector, and
    /// carries the bounded nonlinearity in hidden layers and the identity
    /// activation in the output layer.
    pub open spec fn neuron_ok(self, l: int, j: int) -> bool {
        &&& self.layers[l][j].wf()
        &&& self.layers[l][j].weights.len() == self.width_in(l)
        &&& self.layers[l][j].activation == (if l == self.layers.len() - 1 {
            NeuralNetworkActivationFun::Identity
        } else {
            NeuralNetworkActivationFun::TanH
        })
    }

    /// Well-formedness of the whole network.
    pub open spec fn wf(self) -> bool {
        &&& 0 <= self.input_count <= WIDTH_MAX
        &&& 0 <= self.output_count <= WIDTH_MAX
        &&& self.layers.len() >= 1
        &&& self.layers[self.layers.len() - 1].len() == self.output_count
        &&& forall|l: int| 0 <= l < self.layers.len()
            ==> (#[trigger] self.layers[l]).len() <= WIDTH_MAX
        &&& forall|l: int, j: int| 0 <= l < self.layers.len() && 0 <= j < self.layers[l].len()
            ==> #[trigger] self.neuron_ok(l, j)
    }

    /// Structural compatibility: identical input and output counts, layer
    /// count, and per-layer neuron counts.  Crossover requires it.
    pub open spec fn same_shape(self, other: NetworkModel) -> bool {
        &&& self.input_count == other.input_count
        &&& self.output_count == other.output_count
        &&& self.layers.len() == other.layers.len()
        &&& forall|l: int| 0 <= l < self.layers.len()
            ==> (#[trigger] self.layers[l]).len() == other.layers[l].len()
    }
}

/// The models of a vector of neuron layers.
pub open spec fn layers_view(layers: Seq<Vec<NeuralNetworkNeuron>>) -> Seq<Seq<NeuronModel>> {
    Seq::new(layers.len(), |l: int| Seq::new(layers[l]@.len(), |j: int| layers[l]@[j]@))
}

/// The output vector of one layer on an input vector.
pub open spec fn layer_values(layer: Seq<NeuronModel>, xs: Seq<i64>) -> Seq<i64> {
    Seq::new(layer.len(), |j: int| neuron_value(layer[j], xs) as i64)
}

/// The signal vector after the first `k` layers have consumed `xs`.
pub open spec fn forward_upto(layers: Seq<Seq<NeuronModel>>, xs: Seq<i64>, k: nat) -> Seq<i64>
    decreases k,
{
    if k == 0 {
        xs
    } else {
        layer_values(layers[k - 1], forward_upto(layers, xs, (k - 1) as nat))
    }
}

/// What `predict` returns: the input vector fed through every layer in
/// order.
pub open spec fn spec_predict(m: NetworkModel, xs: Seq<i64>) -> Seq<i64> {
    forward_upto(m.layers, xs, m.layers.len())
}

/// Prediction is deterministic: it is a pure function of the network state
/// and the input vector, so two predictions of the same network on the same
/// inputs, with no mutation in between, agree exactly.
pub proof fn lemma_predict_deterministic(m: NetworkModel, xs: Seq<i64>, r1: Seq<i64>, r2: Seq<i64>)
    requires
        r1 == spec_predict(m, xs),
        r2 == spec_predict(m, xs),
    ensures
        r1 == r2,
{
}

/// In a network with a single (output) layer, each output value is exactly
/// the identity activation of the neuron's raw weighted sum: unbounded,
/// never squashed.
pub proof fn lemma_single_layer_identity(m: NetworkModel, xs: Seq<i64>, j: int)
    requires
        m.wf(),
        m.layers.len() == 1,
        0 <= j < m.layers[0].len(),
        xs.len() == m.input_count,
        forall|i: int| 0 <= i < xs.len() ==> -INPUT_MAX <= #[trigger] xs[i] <= INPUT_MAX,
    ensures
        spec_predict(m, xs)[j] == identity(weighted_sum(m.layers[0][j], xs)),
{
    assert(m.neuron_ok(0, j));
    let nm = m.layers[0][j];
    let s = weighted_sum(nm, xs);
    lemma_dot_prefix_bound(nm.weights, xs, nm.weights.len());
    assert(-4611754737904124640 <= s <= 4611754737904124640);
    if s >= 0 {
        lemma_div_pos_is_pos(s, 65536);
        lemma_div_nonincreasing(s, 65536);
    } else {
        lemma_div_pos_is_pos(-s, 65536);
        lemma_div_nonincreasing(-s, 65536);
    }
    assert(forward_upto(m.layers, xs, 1) == layer_values(m.layers[0], forward_upto(m.layers, xs, 0)));
    assert(spec_predict(m, xs)[j] == neuron_value(nm, xs) as i64);
}

/// A network: fixed input and output counts and an ordered stack of neuron
/// layers.  Constructed once; layers are never added, removed or resized.
#[derive(Clone)]
pub struct NeuralNetwork {
    input_count: usize,
    output_count: usize,
    layers: Vec<Vec<NeuralNetworkNeuron>>,
}

impl View for NeuralNetwork {
    type V = NetworkModel;

    closed spec fn view(&self) -> NetworkModel {
        NetworkModel {
            input_count: self.input_count as int,
            output_count: self.output_count as int,
            layers: layers_view(self.layers@),
        }
    }
}

/// A rebuilt network whose slots each hold a well-formed neuron of the same
/// architecture as the neuron it replaces is itself well formed and keeps
/// the shape.
proof fn lemma_rebuilt_wf(c: NetworkModel, a: NetworkModel)
    requires
        a.wf(),
        c.input_count == a.input_count,
        c.output_count == a.output_count,
        c.layers.len() == a.layers.len(),
        forall|l: int| 0 <= l < c.layers.len()
            ==> (#[trigger] c.layers[l]).len() == a.layers[l].len(),
        forall|l: int, j: int| 0 <= l < c.layers.len() && 0 <= j < c.layers[l].len()
            ==> ((#[trigger] c.layers[l][j]).wf()
                && c.layers[l][j].weights.len() == a.layers[l][j].weights.len()
                && c.layers[l][j].activation == a.layers[l][j].activation),
    ensures
        c.wf(),
        c.same_shape(a),
        a.same_shape(c),
{
    assert forall|l: int, j: int| 0 <= l < c.layers.len() && 0 <= j < c.layers[l].len()
        implies #[trigger] c.neuron_ok(l, j) by {
        assert(a.neuron_ok(l, j));
        assert(c.width_in(l) == a.width_in(l));
    }
    assert(c.layers[c.layers.len() - 1].len() == a.layers[a.layers.len() - 1].len());
}

impl NeuralNetwork {
    /// Build a network with one hidden layer per entry of `layer_sizes`
    /// (bounded nonlinearity), followed by exactly one output layer of
    /// `output_count` identity neurons.  All genes are randomly initialized
    /// within the parameter range.
    #[verifier::loop_isolation(false)]
    pub fn new(input_count: usize, output_count: usize, layer_sizes: Vec<usize>, rng: &mut Rng) -> (r: Self)
        requires
            input_count <= WIDTH_MAX,
            output_count <= WIDTH_MAX,
            forall|i: int| 0 <= i < layer_sizes@.len() ==> #[trigger] layer_sizes@[i] <= WIDTH_MAX,
        ensures
            r@.wf(),
            r@.input_count == input_count,
            r@.output_count == output_count,
            r@.layers.len() == layer_sizes@.len() + 1,
            forall|i: int| 0 <= i < layer_sizes@.len()
                ==> (#[trigger] r@.layers[i]).len() == layer_sizes@[i],
            r@.layers[layer_sizes@.len() as int].len() == output_count,
    {
        let mut layers: Vec<Vec<NeuralNetworkNeuron>> = Vec::new();
        let mut prev: usize = input_count;
        let mut i: usize = 0;
        while i < layer_sizes.len()
            invariant
                i <= layer_sizes@.len(),
                layers@.len() == i,
                prev == (if i == 0 { input_count as int } else { layer_sizes@[i as int - 1] as int }),
                prev <= WIDTH_MAX,
                forall|a: int| 0 <= a < i
                    ==> (#[trigger] layers@[a])@.len() == layer_sizes@[a],
                forall|a: int, b: int| 0 <= a < i && 0 <= b < layers@[a]@.len()
                    ==> ((#[trigger] layers@[a]@[b])@.wf()
                        && layers@[a]@[b]@.activation is TanH
                        && layers@[a]@[b]@.weights.len()
                            == (if a == 0 { input_count as int } else { layer_sizes@[a - 1] as int })),
            decreases layer_sizes@.len() - i,
        {
            let size = layer_sizes[i];
            let mut layer: Vec<NeuralNetworkNeuron> = Vec::new();
            let mut j: usize = 0;
            while j < size
                invariant
                    j <= size,
                    layer@.len() == j,
                    forall|b: int| 0 <= b < j
                        ==> ((#[trigger] layer@[b])@.wf()
                            && layer@[b]@.activation is TanH
                            && layer@[b]@.weights.len() == prev),
                decreases size - j,
            {
                layer.push(NeuralNetworkNeuron::new(prev, NeuralNetworkActivationFun::TanH, rng));
                j += 1;
            }
            layers.push(layer);
            prev = size;
            i += 1;
        }
        let mut out_layer: Vec<NeuralNetworkNeuron> = Vec::new();
        let mut j: usize = 0;
        while j < output_count
            invariant
                j <= output_count,
                out_layer@.len() == j,
                forall|b: int| 0 <= b < j
                    ==> ((#[trigger] out_layer@[b])@.wf()
                        && out_layer@[b]@.activation is Identity
                        && out_layer@[b]@.weights.len() == prev),
            decreases output_count - j,
        {
            out_layer.push(NeuralNetworkNeuron::new(prev, NeuralNetworkActivationFun::Identity, rng));
            j += 1;
        }
        layers.push(out_layer);
        let r = NeuralNetwork { input_count, output_count, layers };
        proof {
            let m = r@;
            assert forall|l: int, j2: int| 0 <= l < m.layers.len() && 0 <= j2 < m.layers[l].len()
                implies #[trigger] m.neuron_ok(l, j2) by {
                if l < layer_sizes@.len() {
                    assert(m.layers[l][j2] == layers@[l]@[j2]@);
                } else {
                    assert(m.layers[l][j2] == out_layer@[j2]@);
                }
            }
        }
        r
    }

    /// Assemble a network from explicitly given layers.
    pub fn from_layers(input_count: usize, output_count: usize, layers: Vec<Vec<NeuralNetworkNeuron>>) -> (r: Self)
        requires
            (NetworkModel {
                input_count: input_count as int,
                output_count: output_count as int,
                layers: layers_view(layers@),
            }).wf(),
        ensures
            r@ == (NetworkModel {
                input_count: input_count as int,
                output_count: output_count as int,
                layers: layers_view(layers@),
            }),
            r@.wf(),
    {
        NeuralNetwork { input_count, output_count, layers }
    }

    /// Number of input signals the network consumes.
    pub fn input_count(&self) -> (r: usize)
        ensures
            r == self@.input_count,
    {
        self.input_count
    }

    /// Number of output signals the network produces.
    pub fn output_count(&self) -> (r: usize)
        ensures
            r == self@.output_count,
    {
        self.output_count
    }

    /// Number of layers, the output layer included.
    pub fn layer_count(&self) -> (r: usize)
        ensures
            r == self@.layers.len(),
    {
        self.layers.len()
    }

    /// Number of neurons in layer `l`.
    pub fn layer_len(&self, l: usize) -> (r: usize)
        requires
            l < self@.layers.len(),
        ensures
            r == self@.layers[l as int].len(),
    {
        self.layers[l].len()
    }

    /// Read-only access to the neuron at layer `l`, position `j`.
    pub fn neuron(&self, l: usize, j: usize) -> (r: &NeuralNetworkNeuron)
        requires
            l < self@.layers.len(),
            j < self@.layers[l as int].len(),
        ensures
            r@ == self@.layers[l as int][j as int],
    {
        &self.layers[l][j]
    }

    /// Feed `inputs` through each layer in order; each layer consumes the
    /// previous layer's full output vector and produces one value per
    /// neuron.  Deterministic, and exactly `spec_predict`.
    #[verifier::loop_isolation(false)]
    pub fn predict(&self, inputs: &Vec<i64>) -> (r: Vec<i64>)
        requires
            self@.wf(),
            inputs@.len() == self@.input_count,
            forall|i: int| 0 <= i < inputs@.len()
                ==> -INPUT_MAX <= #[trigger] inputs@[i] <= INPUT_MAX,
        ensures
            r@.len() == self@.output_count,
            r@ == spec_predict(self@, inputs@),
    {
        let ghost xin: Seq<i64> = inputs@;
        let mut cur: Vec<i64> = Vec::new();
        let mut t: usize = 0;
        while t < inputs.len()
            invariant
                t <= inputs@.len(),
                cur@.len() == t,
                forall|i: int| 0 <= i < t ==> #[trigger] cur@[i] == inputs@[i],
            decreases inputs@.len() - t,
        {
            cur.push(inputs[t]);
            t += 1;
        }
        proof {
            assert(cur@ =~= xin);
        }
        let mut l: usize = 0;
        while l < self.layers.len()
            invariant
                l <= self@.layers.len(),
                cur@ == forward_upto(self@.layers, xin, l as nat),
                cur@.len() == self@.width_in(l as int),
                l < self@.layers.len() ==> forall|i: int| 0 <= i < cur@.len()
                    ==> -INPUT_MAX <= #[trigger] cur@[i] <= INPUT_MAX,
            decreases self@.layers.len() - l,
        {
            let mut next: Vec<i64> = Vec::new();
            let mut j: usize = 0;
            while j < self.layers[l].len()
                invariant
                    j <= self@.layers[l as int].len(),
                    next@.len() == j,
                    forall|i: int| 0 <= i < j
                        ==> #[trigger] next@[i] == neuron_value(self@.layers[l as int][i], cur@),
                    (l as int) != self@.layers.len() - 1 ==> forall|i: int| 0 <= i < j
                        ==> -SCALE < #[trigger] next@[i] < SCALE,
                decreases self@.layers[l as int].len() - j,
            {
                proof {
                    assert(self@.neuron_ok(l as int, j as int));
                }
                let v = self.layers[l][j].activate(&cur);
                next.push(v);
                j += 1;
            }
            proof {
                assert(next@ =~= layer_values(self@.layers[l as int], cur@));
                assert(forward_upto(self@.layers, xin, (l + 1) as nat)
                    == layer_values(self@.layers[l as int], forward_upto(self@.layers, xin, l as nat)));
            }
            cur = next;
            l += 1;
        }
        cur
    }

    /// `predict` behind an explicit shape check: `Some` exactly when the
    /// input vector has the right length and every entry is within the
    /// accepted signal range, `None` otherwise.
    pub fn try_predict(&self, inputs: &Vec<i64>) -> (r: Option<Vec<i64>>)
        requires
            self@.wf(),
        ensures
            r is Some <==> (inputs@.len() == self@.input_count
                && forall|i: int| 0 <= i < inputs@.len()
                    ==> -INPUT_MAX <= #[trigger] inputs@[i] <= INPUT_MAX),
            r matches Some(v) ==> v@ == spec_predict(self@, inputs@)
                && v@.len() == self@.output_count,
    {
        if inputs.len() != self.input_count {
            return None;
        }
        let mut i: usize = 0;
        while i < inputs.len()
            invariant
                i <= inputs@.len(),
                forall|k: int| 0 <= k < i ==> -INPUT_MAX <= #[trigger] inputs@[k] <= INPUT_MAX,
            decreases inputs@.len() - i,
        {
            let x = inputs[i];
            if x < -INPUT_MAX || x > INPUT_MAX {
                return None;
            }
            i += 1;
        }
        Some(self.predict(inputs))
    }

    /// Whether `self` and `other` are structurally compatible, as crossover
    /// requires.
    pub fn is_compatible_with(&self, other: &Self) -> (r: bool)
        ensures
            r == self@.same_shape(other@),
    {
        if self.input_count != other.input_count {
            return false;
        }
        if self.output_count != other.output_count {
            return false;
        }
        if self.layers.len() != other.layers.len() {
            return false;
        }
        let mut l: usize = 0;
        while l < self.layers.len()
            invariant
                l <= self@.layers.len(),
                self@.layers.len() == other@.layers.len(),
                self@.input_count == other@.input_count,
                self@.output_count == other@.output_count,
                forall|a: int| 0 <= a < l
                    ==> (#[trigger] self@.layers[a]).len() == other@.layers[a].len(),
            decreases self@.layers.len() - l,
        {
            if self.layers[l].len() != other.layers[l].len() {
                proof {
                    assert(self@.layers[l as int].len() != other@.layers[l as int].len());
                }
                return false;
            }
            l += 1;
        }
        true
    }

    /// Produce a child network of the same shape, where each neuron is the
    /// crossover of the corresponding neurons of the two parents.  Neither
    /// parent is changed.
    #[verifier::loop_isolation(false)]
    pub fn crossover(&self, other: &Self, rng: &mut Rng) -> (r: Self)
        requires
            self@.wf(),
            other@.wf(),
            self@.same_shape(other@),
        ensures
            r@.wf(),
            r@.same_shape(self@),
            self@.same_shape(r@),
            forall|l: int, j: int| 0 <= l < r@.layers.len() && 0 <= j < r@.layers[l].len()
                ==> gene_mix(#[trigger] r@.layers[l][j], self@.layers[l][j], other@.layers[l][j]),
    {
        let mut new_layers: Vec<Vec<NeuralNetworkNeuron>> = Vec::new();
        let mut l: usize = 0;
        while l < self.layers.len()
            invariant
                l <= self@.layers.len(),
                new_layers@.len() == l,
                forall|a: int| 0 <= a < l
                    ==> (#[trigger] new_layers@[a])@.len() == self@.layers[a].len(),
                forall|a: int, b: int| 0 <= a < l && 0 <= b < new_layers@[a]@.len()
                    ==> gene_mix((#[trigger] new_layers@[a]@[b])@, self@.layers[a][b], other@.layers[a][b]),
            decreases self@.layers.len() - l,
        {
            let mut layer: Vec<NeuralNetworkNeuron> = Vec::new();
            let mut j: usize = 0;
            while j < self.layers[l].len()
                invariant
                    j <= self@.layers[l as int].len(),
                    layer@.len() == j,
                    forall|b: int| 0 <= b < j
                        ==> gene_mix((#[trigger] layer@[b])@, self@.layers[l as int][b], other@.layers[l as int][b]),
                decreases self@.layers[l as int].len() - j,
            {
                proof {
                    assert(self@.neuron_ok(l as int, j as int));
                    assert(other@.neuron_ok(l as int, j as int));
                    assert(self@.width_in(l as int) == other@.width_in(l as int));
                }
                let n = self.layers[l][j].crossover(&other.layers[l][j], rng);
                layer.push(n);
                j += 1;
            }
            new_layers.push(layer);
            l += 1;
        }
        let r = NeuralNetwork {
            input_count: self.input_count,
            output_count: self.output_count,
            layers: new_layers,
        };
        proof {
            let c = r@;
            let a = self@;
            let b = other@;
            assert forall|l2: int, j2: int| 0 <= l2 < c.layers.len() && 0 <= j2 < c.layers[l2].len()
                implies gene_mix(#[trigger] c.layers[l2][j2], a.layers[l2][j2], b.layers[l2][j2]) by {
                assert(c.layers[l2][j2] == new_layers@[l2]@[j2]@);
            }
            assert forall|l2: int, j2: int| 0 <= l2 < c.layers.len() && 0 <= j2 < c.layers[l2].len()
                implies ((#[trigger] c.layers[l2][j2]).wf()
                    && c.layers[l2][j2].weights.len() == a.layers[l2][j2].weights.len()
                    && c.layers[l2][j2].activation == a.layers[l2][j2].activation) by {
                assert(a.neuron_ok(l2, j2));
                assert(b.neuron_ok(l2, j2));
                assert(c.layers[l2][j2] == new_layers@[l2]@[j2]@);
                assert(gene_mix(c.layers[l2][j2], a.layers[l2][j2], b.layers[l2][j2]));
                assert(a.width_in(l2) == b.width_in(l2));
                lemma_mix_wf(c.layers[l2][j2], a.layers[l2][j2], b.layers[l2][j2]);
            }
            lemma_rebuilt_wf(c, a);
        }
        r
    }

    /// Crossover behind an explicit compatibility check: `Some(child)`
    /// exactly when the two networks are structurally compatible, `None`
    /// otherwise — never a malformed child.
    pub fn try_crossover(&self, other: &Self, rng: &mut Rng) -> (r: Option<Self>)
        requires
            self@.wf(),
            other@.wf(),
        ensures
            r is Some <==> self@.same_shape(other@),
            r matches Some(c) ==> c@.wf() && c@.same_shape(self@)
                && forall|l: int, j: int| 0 <= l < c@.layers.len() && 0 <= j < c@.layers[l].len()
                    ==> gene_mix(#[trigger] c@.layers[l][j], self@.layers[l][j], other@.layers[l][j]),
    {
        if self.is_compatible_with(other) {
            Some(self.crossover(other, rng))
        } else {
            None
        }
    }

    /// Mutate every neuron of every layer in place: each gene is redrawn
    /// with probability `rate / RATE_ONE` and kept otherwise.  The shape
    /// never changes, and a rate of zero changes nothing at all.
    #[verifier::loop_isolation(false)]
    pub fn mutate(&mut self, rate: u64, rng: &mut Rng)
        requires
            rate <= RATE_ONE,
            old(self)@.wf(),
        ensures
            final(self)@.wf(),
            final(self)@.same_shape(old(self)@),
            old(self)@.same_shape(final(self)@),
            rate == 0 ==> final(self)@ == old(self)@,
    {
        let mut new_layers: Vec<Vec<NeuralNetworkNeuron>> = Vec::new();
        let mut l: usize = 0;
        while l < self.layers.len()
            invariant
                l <= self@.layers.len(),
                new_layers@.len() == l,
                forall|a: int| 0 <= a < l
                    ==> (#[trigger] new_layers@[a])@.len() == self@.layers[a].len(),
                forall|a: int, b: int| 0 <= a < l && 0 <= b < new_layers@[a]@.len()
                    ==> ((#[trigger] new_layers@[a]@[b])@.wf()
                        && new_layers@[a]@[b]@.weights.len() == self@.layers[a][b].weights.len()
                        && new_layers@[a]@[b]@.activation == self@.layers[a][b].activation),
                rate == 0 ==> forall|a: int, b: int| 0 <= a < l && 0 <= b < new_layers@[a]@.len()
                    ==> (#[trigger] new_layers@[a]@[b])@ == self@.layers[a][b],
            decreases self@.layers.len() - l,
        {
            let mut layer: Vec<NeuralNetworkNeuron> = Vec::new();
            let mut j: usize = 0;
            while j < self.layers[l].len()
                invariant
                    j <= self@.layers[l as int].len(),
                    layer@.len() == j,
                    forall|b: int| 0 <= b < j
                        ==> ((#[trigger] layer@[b])@.wf()
                            && layer@[b]@.weights.len() == self@.layers[l as int][b].weights.len()
                            && layer@[b]@.activation == self@.layers[l as int][b].activation),
                    rate == 0 ==> forall|b: int| 0 <= b < j
                        ==> (#[trigger] layer@[b])@ == self@.layers[l as int][b],
                decreases self@.layers[l as int].len() - j,
            {
                proof {
                    assert(self@.neuron_ok(l as int, j as int));
                }
                let n = self.layers[l][j].mutated(rate, rng);
                layer.push(n);
                j += 1;
            }
            new_layers.push(layer);
            l += 1;
        }
        self.layers = new_layers;
        proof {
            let c = self@;
            let a = old(self)@;
            assert forall|l2: int, j2: int| 0 <= l2 < c.layers.len() && 0 <= j2 < c.layers[l2].len()
                implies ((#[trigger] c.layers[l2][j2]).wf()
                    && c.layers[l2][j2].weights.len() == a.layers[l2][j2].weights.len()
                    && c.layers[l2][j2].activation == a.layers[l2][j2].activation) by {
                assert(c.layers[l2][j2] == new_layers@[l2]@[j2]@);
            }
            lemma_rebuilt_wf(c, a);
            if rate == 0 {
                assert forall|l2: int| 0 <= l2 < c.layers.len()
                    implies #[trigger] c.layers[l2] == a.layers[l2] by {
                    assert(c.layers[l2].len() == a.layers[l2].len());
                    assert forall|b: int| 0 <= b < c.layers[l2].len()
                        implies #[trigger] c.layers[l2][b] == a.layers[l2][b] by {
                        assert(c.layers[l2][b] == new_layers@[l2]@[b]@);
                    }
                    assert(c.layers[l2] =~= a.layers[l2]);
                }
                assert(c.layers =~= a.layers);
                assert(c =~= a);
            }
        }
    }
}

} // verus!
