use neuroevo::fixed::{SCALE, PARAM_MAX, INPUT_MAX, RATE_ONE};
use neuroevo::neuron::{NeuralNetworkActivationFun, NeuralNetworkNeuron};
use neuroevo::rng::Rng;

/// The identity activation computes exactly `bias + sum(weight * input)`:
/// weights [2.0, -1.0], bias 0.5, inputs [3.0, 4.0] give 2.5.
#[test]
fn identity_activation_exact_arithmetic() {
    let n = NeuralNetworkNeuron::with_params(
        vec![2 * SCALE, -SCALE],
        SCALE / 2,
        NeuralNetworkActivationFun::Identity,
    );
    let out = n.activate(&vec![3 * SCALE, 4 * SCALE]);
    assert_eq!(out, 2 * SCALE + SCALE / 2);
}

/// A bounded-nonlinearity neuron with weighted sum zero outputs exactly zero.
#[test]
fn bounded_activation_zero_maps_to_zero() {
    let n = NeuralNetworkNeuron::with_params(vec![SCALE], 0, NeuralNetworkActivationFun::TanH);
    assert_eq!(n.activate(&vec![0]), 0);
}

/// The bounded nonlinearity stays strictly inside (-1, 1) even for the most
/// extreme weighted sums the parameter and input ranges allow.
#[test]
fn bounded_activation_strictly_inside_unit_interval() {
    let hi = NeuralNetworkNeuron::with_params(
        vec![PARAM_MAX],
        PARAM_MAX,
        NeuralNetworkActivationFun::TanH,
    );
    let out_hi = hi.activate(&vec![INPUT_MAX]);
    assert!(0 < out_hi && out_hi < SCALE);

    let lo = NeuralNetworkNeuron::with_params(
        vec![-PARAM_MAX],
        -PARAM_MAX,
        NeuralNetworkActivationFun::TanH,
    );
    let out_lo = lo.activate(&vec![INPUT_MAX]);
    assert!(-SCALE < out_lo && out_lo < 0);
}

/// The bounded nonlinearity saturates: a larger weighted sum never gives a
/// smaller output, and large sums approach (without reaching) the bound.
#[test]
fn bounded_activation_saturates() {
    let n = NeuralNetworkNeuron::with_params(vec![SCALE], 0, NeuralNetworkActivationFun::TanH);
    let mut last = -SCALE;
    for x in [0, SCALE, 16 * SCALE, 256 * SCALE, INPUT_MAX] {
        let out = n.activate(&vec![x]);
        assert!(out >= last);
        assert!(out < SCALE);
        last = out;
    }
    assert!(last > SCALE - 100);
}

/// Every gene of a crossover child equals the corresponding gene of one of
/// the two parents — never an interpolated or out-of-range value — and over
/// many trials both parents are seen contributing.
#[test]
fn crossover_gene_provenance() {
    let a = NeuralNetworkNeuron::with_params(
        vec![111, 222, 333],
        444,
        NeuralNetworkActivationFun::TanH,
    );
    let b = NeuralNetworkNeuron::with_params(
        vec![555, 666, 777],
        888,
        NeuralNetworkActivationFun::TanH,
    );
    let mut saw_a = false;
    let mut saw_b = false;
    for seed in 0..200u64 {
        let mut rng = Rng::new(seed);
        let c = a.crossover(&b, &mut rng);
        assert_eq!(c.weights().len(), 3);
        for k in 0..3 {
            let w = c.weights()[k];
            let wa = a.weights()[k];
            let wb = b.weights()[k];
            assert!(w == wa || w == wb);
            if w == wa {
                saw_a = true;
            }
            if w == wb {
                saw_b = true;
            }
        }
        assert!(c.bias() == a.bias() || c.bias() == b.bias());
        assert!(matches!(c.activation(), NeuralNetworkActivationFun::TanH));
    }
    assert!(saw_a && saw_b);
}

/// A mutation rate of zero leaves every gene untouched; the full rate leaves
/// the structure intact but redraws genes within the parameter range.
#[test]
fn mutation_rate_zero_is_noop() {
    let mut n = NeuralNetworkNeuron::with_params(
        vec![100, -200, 300],
        -400,
        NeuralNetworkActivationFun::Identity,
    );
    let mut rng = Rng::new(7);
    n.mutate(0, &mut rng);
    assert_eq!(n.weights().clone(), vec![100, -200, 300]);
    assert_eq!(n.bias(), -400);

    let mut changed = false;
    for seed in 0..20u64 {
        let mut n2 = NeuralNetworkNeuron::with_params(
            vec![100, -200, 300],
            -400,
            NeuralNetworkActivationFun::Identity,
        );
        let mut rng2 = Rng::new(seed);
        n2.mutate(RATE_ONE, &mut rng2);
        assert_eq!(n2.weights().len(), 3);
        assert!(matches!(n2.activation(), NeuralNetworkActivationFun::Identity));
        for k in 0..3 {
            let w = n2.weights()[k];
            assert!(-PARAM_MAX <= w && w <= PARAM_MAX);
            if w != n.weights()[k] {
                changed = true;
            }
        }
    }
    assert!(changed);
}

/// Randomly initialized neurons have the requested weight count and genes
/// within the parameter range.
#[test]
fn random_initialization_is_bounded() {
    let mut rng = Rng::new(42);
    let n = NeuralNetworkNeuron::new(5, NeuralNetworkActivationFun::TanH, &mut rng);
    assert_eq!(n.weights().len(), 5);
    assert!(-PARAM_MAX <= n.bias() && n.bias() <= PARAM_MAX);
    for k in 0..5 {
        let w = n.weights()[k];
        assert!(-PARAM_MAX <= w && w <= PARAM_MAX);
    }
}

/// Draws from the generator respect the requested ranges and are
/// reproducible from the seed.
#[test]
fn rng_ranges_and_reproducibility() {
    let mut r1 = Rng::new(99);
    let mut r2 = Rng::new(99);
    for _ in 0..100 {
        let a = r1.next_below(17);
        let b = r2.next_below(17);
        assert_eq!(a, b);
        assert!(a < 17);
        let p = r1.next_param();
        let q = r2.next_param();
        assert_eq!(p, q);
        assert!(-PARAM_MAX <= p && p <= PARAM_MAX);
    }
}
