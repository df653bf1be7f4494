//! The atomic computational unit: a weighted sum of inputs, a bias, and an
//! activation function, producing one scalar output.

use vstd::prelude::*;
use crate::fixed::{
    SCALE, PARAM_MAX, INPUT_MAX, WIDTH_MAX, RATE_ONE,
    softsign, identity, squash, scale_down,
};
use crate::rng::Rng;

verus! {

/// The closed set of activation functions a neuron may carry.
#[derive(Clone, Copy, Debug, PartialEq, Eq, Structural)]
pub enum NeuralNetworkActivationFun {
    /// The bounded nonlinearity: output strictly inside (-1, 1) in signal
    /// terms, saturating for large weighted sums.
    TanH,
    /// The linear pass-through: output equal to the weighted sum.
    Identity,
}

/// Mathematical model of a neuron: its gene values and activation kind.
#[verifier::ext_equal]
pub ghost struct NeuronModel {
    pub weights: Seq<i64>,
    pub bias: i64,
    pub activation: NeuralNetworkActivationFun,
}

impl NeuronModel {
    /// Well-formedness: a bounded number of inputs, and every gene within
    /// the parameter range.
    pub open spec fn wf(self) -> bool {
        &&& self.weights.len() <= WIDTH_MAX
        &&& -PARAM_MAX <= self.bias <= PARAM_MAX
        &&& forall|k: int| 0 <= k < self.weights.len()
            ==> -PARAM_MAX <= #[trigger] self.weights[k] <= PARAM_MAX
    }
}

/// Dot product of the first `n` weight/input pairs.
pub open spec fn dot_prefix(ws: Seq<i64>, xs: Seq<i64>, n: nat) -> int
    decreases n,
{
    if n == 0 {
        0
    } else {
        dot_prefix(ws, xs, (n - 1) as nat) + ws[n - 1] * xs[n - 1]
    }
}

/// The raw weighted sum of a neuron on an input vector, scaled by
/// `SCALE * SCALE`.
pub open spec fn weighted_sum(nm: NeuronModel, xs: Seq<i64>) -> int {
    nm.bias * SCALE + dot_prefix(nm.weights, xs, nm.weights.len())
}

/// The value an activation function gives to a raw weighted sum.
pub open spec fn apply_activation(a: NeuralNetworkActivationFun, s: int) -> int {
    match a {
        NeuralNetworkActivationFun::TanH => softsign(s),
        NeuralNetworkActivationFun::Identity => identity(s),
    }
}

/// The scalar a neuron produces on an input vector.
pub open spec fn neuron_value(nm: NeuronModel, xs: Seq<i64>) -> int {
    apply_activation(nm.activation, weighted_sum(nm, xs))
}

/// Gene provenance of a crossover child: every weight and the bias come
/// from one of the two parents, and the architecture is the first parent's.
pub open spec fn gene_mix(c: NeuronModel, a: NeuronModel, b: NeuronModel) -> bool {
    &&& c.weights.len() == a.weights.len()
    &&& c.activation == a.activation
    &&& (c.bias == a.bias || c.bias == b.bias)
    &&& forall|k: int| 0 <= k < c.weights.len()
        ==> (#[trigger] c.weights[k]) == a.weights[k] || c.weights[k] == b.weights[k]
}

/// Magnitude bound on a dot product of bounded weights and bounded inputs:
/// each of the `n` terms is at most `PARAM_MAX * INPUT_MAX` in magnitude.
pub proof fn lemma_dot_prefix_bound(ws: Seq<i64>, xs: Seq<i64>, n: nat)
    requires
        n <= ws.len(),
        n <= xs.len(),
        forall|k: int| 0 <= k < ws.len() ==> -PARAM_MAX <= #[trigger] ws[k] <= PARAM_MAX,
        forall|k: int| 0 <= k < xs.len() ==> -INPUT_MAX <= #[trigger] xs[k] <= INPUT_MAX,
    ensures
        -((n as int) * 70368744177664) <= dot_prefix(ws, xs, n) <= (n as int) * 70368744177664,
    decreases n,
{
    if n > 0 {
        lemma_dot_prefix_bound(ws, xs, (n - 1) as nat);
        let w = ws[n - 1];
        let x = xs[n - 1];
        assert(-70368744177664 <= w * x <= 70368744177664) by (nonlinear_arith)
            requires
                -1048576 <= w <= 1048576,
                -67108864 <= x <= 67108864;
    }
}

/// A crossover child of two well-formed, structurally identical neurons is
/// itself well formed: every gene comes from a parent and so stays within
/// the parameter range.
pub proof fn lemma_mix_wf(c: NeuronModel, a: NeuronModel, b: NeuronModel)
    requires
        gene_mix(c, a, b),
        a.wf(),
        b.wf(),
        a.weights.len() == b.weights.len(),
    ensures
        c.wf(),
{
    assert forall|k: int| 0 <= k < c.weights.len()
        implies -PARAM_MAX <= #[trigger] c.weights[k] <= PARAM_MAX by {
        assert(c.weights[k] == a.weights[k] || c.weights[k] == b.weights[k]);
    }
}

/// A neuron: one weight per input signal, a bias, and a fixed activation.
#[derive(Clone)]
pub struct NeuralNetworkNeuron {
    weights: Vec<i64>,
    bias: i64,
    activation: NeuralNetworkActivationFun,
}

impl View for NeuralNetworkNeuron {
    type V = NeuronModel;

    closed spec fn view(&self) -> NeuronModel {
        NeuronModel { weights: self.weights@, bias: self.bias, activation: self.activation }
    }
}

impl NeuralNetworkNeuron {
    /// Create a neuron with `input_count` randomly initialized weights and a
    /// randomly initialized bias.
    pub fn new(input_count: usize, activation: NeuralNetworkActivationFun, rng: &mut Rng) -> (r: Self)
        requires
            input_count <= WIDTH_MAX,
        ensures
            r@.wf(),
            r@.weights.len() == input_count,
            r@.activation == activation,
    {
        let mut ws: Vec<i64> = Vec::new();
        let mut k: usize = 0;
        while k < input_count
            invariant
                k <= input_count,
                ws@.len() == k,
                forall|i: int| 0 <= i < k ==> -PARAM_MAX <= #[trigger] ws@[i] <= PARAM_MAX,
            decreases input_count - k,
        {
            ws.push(rng.next_param());
            k += 1;
        }
        let bias = rng.next_param();
        NeuralNetworkNeuron { weights: ws, bias, activation }
    }

    /// Create a neuron with the given genes.
    pub fn with_params(weights: Vec<i64>, bias: i64, activation: NeuralNetworkActivationFun) -> (r: Self)
        requires
            weights@.len() <= WIDTH_MAX,
            -PARAM_MAX <= bias <= PARAM_MAX,
            forall|k: int| 0 <= k < weights@.len()
                ==> -PARAM_MAX <= #[trigger] weights@[k] <= PARAM_MAX,
        ensures
            r@ == (NeuronModel { weights: weights@, bias, activation }),
            r@.wf(),
    {
        NeuralNetworkNeuron { weights, bias, activation }
    }

    /// Number of input signals this neuron consumes.
    pub fn weight_count(&self) -> (r: usize)
        ensures
            r == self@.weights.len(),
    {
        self.weights.len()
    }

    /// Read-only access to the weight vector.
    pub fn weights(&self) -> (r: &Vec<i64>)
        ensures
            r@ == self@.weights,
    {
        &self.weights
    }

    /// Read-only access to the bias.
    pub fn bias(&self) -> (r: i64)
        ensures
            r == self@.bias,
    {
        self.bias
    }

    /// The activation kind this neuron was built with.
    pub fn activation(&self) -> (r: NeuralNetworkActivationFun)
        ensures
            r == self@.activation,
    {
        self.activation
    }

    /// Compute this neuron's output on an input vector: the raw weighted sum
    /// `bias * SCALE + sum(weights[i] * inputs[i])`, passed through the
    /// activation function.
    #[verifier::loop_isolation(false)]
    pub fn activate(&self, inputs: &Vec<i64>) -> (r: i64)
        requires
            self@.wf(),
            inputs@.len() == self@.weights.len(),
            forall|i: int| 0 <= i < inputs@.len()
                ==> -INPUT_MAX <= #[trigger] inputs@[i] <= INPUT_MAX,
        ensures
            r == neuron_value(self@, inputs@),
            self@.activation is TanH ==> -SCALE < r < SCALE,
    {
        let mut acc: i64 = self.bias * SCALE;
        let mut i: usize = 0;
        while i < self.weights.len()
            invariant
                i <= self.weights.len(),
                acc == self@.bias * SCALE + dot_prefix(self@.weights, inputs@, i as nat),
                -68719476736 - (i as int) * 70368744177664 <= acc
                    <= 68719476736 + (i as int) * 70368744177664,
            decreases self.weights.len() - i,
        {
            let w = self.weights[i];
            let x = inputs[i];
            proof {
                assert(-70368744177664 <= w * x <= 70368744177664) by (nonlinear_arith)
                    requires
                        -1048576 <= w <= 1048576,
                        -67108864 <= x <= 67108864;
            }
            acc = acc + w * x;
            i += 1;
        }
        match self.activation {
            NeuralNetworkActivationFun::TanH => squash(acc),
            NeuralNetworkActivationFun::Identity => scale_down(acc),
        }
    }

    /// Recombine this neuron with a structurally identical one: each weight
    /// and the bias are selected, independently and unbiased, from one
    /// parent or the other.  Neither parent is changed.
    pub fn crossover(&self, other: &Self, rng: &mut Rng) -> (r: Self)
        requires
            self@.weights.len() == other@.weights.len(),
            self@.activation == other@.activation,
        ensures
            gene_mix(r@, self@, other@),
    {
        let mut ws: Vec<i64> = Vec::new();
        let mut k: usize = 0;
        while k < self.weights.len()
            invariant
                k <= self.weights.len(),
                self@.weights.len() == other@.weights.len(),
                ws@.len() == k,
                forall|i: int| 0 <= i < k
                    ==> (#[trigger] ws@[i]) == self@.weights[i] || ws@[i] == other@.weights[i],
            decreases self.weights.len() - k,
        {
            let w = if rng.next_bool() { self.weights[k] } else { other.weights[k] };
            ws.push(w);
            k += 1;
        }
        let bias = if rng.next_bool() { self.bias } else { other.bias };
        NeuralNetworkNeuron { weights: ws, bias, activation: self.activation }
    }

    /// Perturb this neuron in place: independently, each weight and the bias
    /// is redrawn with probability `rate / RATE_ONE`, and kept otherwise.
    /// The weight count and the activation never change; a rate of zero
    /// changes nothing at all.
    pub fn mutate(&mut self, rate: u64, rng: &mut Rng)
        requires
            rate <= RATE_ONE,
            old(self)@.wf(),
        ensures
            final(self)@.wf(),
            final(self)@.weights.len() == old(self)@.weights.len(),
            final(self)@.activation == old(self)@.activation,
            rate == 0 ==> final(self)@ == old(self)@,
    {
        let m = self.mutated(rate, rng);
        *self = m;
    }

    /// The mutation step as a pure function: a copy of this neuron with each
    /// gene either kept or redrawn.
    pub(crate) fn mutated(&self, rate: u64, rng: &mut Rng) -> (r: Self)
        requires
            rate <= RATE_ONE,
            self@.wf(),
        ensures
            r@.wf(),
            r@.weights.len() == self@.weights.len(),
            r@.activation == self@.activation,
            rate == 0 ==> r@ == self@,
    {
        let mut ws: Vec<i64> = Vec::new();
        let mut k: usize = 0;
        while k < self.weights.len()
            invariant
                k <= self.weights.len(),
                self@.wf(),
                rate <= RATE_ONE,
                ws@.len() == k,
                forall|i: int| 0 <= i < k ==> -PARAM_MAX <= #[trigger] ws@[i] <= PARAM_MAX,
                rate == 0 ==> ws@ =~= self@.weights.take(k as int),
            decreases self.weights.len() - k,
        {
            let roll = rng.next_below(RATE_ONE);
            let w = if roll < rate { rng.next_param() } else { self.weights[k] };
            ws.push(w);
            k += 1;
        }
        let roll = rng.next_below(RATE_ONE);
        let bias = if roll < rate { rng.next_param() } else { self.bias };
        proof {
            if rate == 0 {
                assert(ws@ =~= self@.weights);
            }
        }
        let r = NeuralNetworkNeuron { weights: ws, bias, activation: self.activation };
        proof {
            if rate == 0 {
                assert(r@ =~= self@);
            }
        }
        r
    }
}

} // verus!
