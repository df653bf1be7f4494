use neuroevo::fixed::{SCALE, INPUT_MAX, RATE_ONE};
use neuroevo::neuron::{NeuralNetworkActivationFun, NeuralNetworkNeuron};
use neuroevo::network::NeuralNetwork;
use neuroevo::rng::Rng;

fn shape_of(n: &NeuralNetwork) -> (usize, usize, Vec<usize>) {
    let mut lens = Vec::new();
    for l in 0..n.layer_count() {
        lens.push(n.layer_len(l));
    }
    (n.input_count(), n.output_count(), lens)
}

fn genes_of(n: &NeuralNetwork) -> Vec<Vec<(Vec<i64>, i64)>> {
    let mut layers = Vec::new();
    for l in 0..n.layer_count() {
        let mut layer = Vec::new();
        for j in 0..n.layer_len(l) {
            let neuron = n.neuron(l, j);
            layer.push((neuron.weights().clone(), neuron.bias()));
        }
        layers.push(layer);
    }
    layers
}

/// Construction gives one hidden layer per requested size plus one identity
/// output layer, every neuron fed by the previous layer's width.
#[test]
fn construction_shape() {
    let mut rng = Rng::new(1);
    let n = NeuralNetwork::new(3, 2, vec![4, 5], &mut rng);
    assert_eq!(shape_of(&n), (3, 2, vec![4, 5, 2]));
    assert_eq!(n.neuron(0, 0).weights().len(), 3);
    assert_eq!(n.neuron(1, 0).weights().len(), 4);
    assert_eq!(n.neuron(2, 0).weights().len(), 5);
    for j in 0..4 {
        assert!(matches!(n.neuron(0, j).activation(), NeuralNetworkActivationFun::TanH));
    }
    for j in 0..2 {
        assert!(matches!(n.neuron(2, j).activation(), NeuralNetworkActivationFun::Identity));
    }
}

/// An empty list of hidden sizes gives a single output layer wired straight
/// to the inputs.
#[test]
fn construction_without_hidden_layers() {
    let mut rng = Rng::new(2);
    let n = NeuralNetwork::new(3, 2, vec![], &mut rng);
    assert_eq!(shape_of(&n), (3, 2, vec![2]));
    let out = n.predict(&vec![SCALE, 0, -SCALE]);
    assert_eq!(out.len(), 2);
    for j in 0..2 {
        let neuron = n.neuron(0, j);
        let mut sum = (neuron.bias() as i128) * (SCALE as i128);
        let inputs = [SCALE, 0, -SCALE];
        for k in 0..3 {
            sum += (neuron.weights()[k] as i128) * (inputs[k] as i128);
        }
        let expected = if sum >= 0 {
            sum / (SCALE as i128)
        } else {
            -((-sum) / (SCALE as i128))
        };
        assert_eq!(out[j] as i128, expected);
    }
}

/// Prediction twice on the same unmutated network gives identical results.
#[test]
fn prediction_is_deterministic() {
    let mut rng = Rng::new(3);
    let n = NeuralNetwork::new(4, 3, vec![5], &mut rng);
    let inputs = vec![SCALE, -SCALE, SCALE / 2, 0];
    let a = n.predict(&inputs);
    let b = n.predict(&inputs);
    assert_eq!(a, b);

    let mut rng1 = Rng::new(77);
    let mut rng2 = Rng::new(77);
    let n1 = NeuralNetwork::new(2, 2, vec![3], &mut rng1);
    let n2 = NeuralNetwork::new(2, 2, vec![3], &mut rng2);
    assert_eq!(n1.predict(&vec![SCALE, SCALE]), n2.predict(&vec![SCALE, SCALE]));
}

/// A single-neuron identity network computes the exact weighted sum:
/// weights [2.0, -1.0], bias 0.5, inputs [3.0, 4.0] give exactly 2.5.
#[test]
fn identity_output_exact_value() {
    let neuron = NeuralNetworkNeuron::with_params(
        vec![2 * SCALE, -SCALE],
        SCALE / 2,
        NeuralNetworkActivationFun::Identity,
    );
    let n = NeuralNetwork::from_layers(2, 1, vec![vec![neuron]]);
    let out = n.predict(&vec![3 * SCALE, 4 * SCALE]);
    assert_eq!(out, vec![2 * SCALE + SCALE / 2]);
}

/// Crossover of compatible networks preserves the shape and takes every gene
/// from one of the two parents.
#[test]
fn crossover_shape_and_provenance() {
    let mut rng = Rng::new(4);
    let a = NeuralNetwork::new(3, 2, vec![4], &mut rng);
    let b = NeuralNetwork::new(3, 2, vec![4], &mut rng);
    let c = a.crossover(&b, &mut rng);
    assert_eq!(shape_of(&c), shape_of(&a));
    for l in 0..c.layer_count() {
        for j in 0..c.layer_len(l) {
            let cn = c.neuron(l, j);
            let an = a.neuron(l, j);
            let bn = b.neuron(l, j);
            for k in 0..cn.weights().len() {
                let w = cn.weights()[k];
                assert!(w == an.weights()[k] || w == bn.weights()[k]);
            }
            assert!(cn.bias() == an.bias() || cn.bias() == bn.bias());
        }
    }
}

/// Crossover does not change either parent.
#[test]
fn crossover_leaves_parents_untouched() {
    let mut rng = Rng::new(5);
    let a = NeuralNetwork::new(2, 2, vec![3], &mut rng);
    let b = NeuralNetwork::new(2, 2, vec![3], &mut rng);
    let a_before = genes_of(&a);
    let b_before = genes_of(&b);
    let _c = a.crossover(&b, &mut rng);
    assert_eq!(genes_of(&a), a_before);
    assert_eq!(genes_of(&b), b_before);
}

/// Crossing over structurally incompatible networks is rejected outright.
#[test]
fn crossover_incompatible_rejected() {
    let mut rng = Rng::new(6);
    let a = NeuralNetwork::new(2, 2, vec![2], &mut rng);
    let b = NeuralNetwork::new(2, 3, vec![2], &mut rng);
    assert!(!a.is_compatible_with(&b));
    assert!(a.try_crossover(&b, &mut rng).is_none());

    let c = NeuralNetwork::new(2, 2, vec![], &mut rng);
    assert!(!a.is_compatible_with(&c));
    assert!(a.try_crossover(&c, &mut rng).is_none());

    let d = NeuralNetwork::new(2, 2, vec![3], &mut rng);
    assert!(!a.is_compatible_with(&d));
    assert!(a.try_crossover(&d, &mut rng).is_none());

    let e = NeuralNetwork::new(2, 2, vec![2], &mut rng);
    assert!(a.is_compatible_with(&e));
    assert!(a.try_crossover(&e, &mut rng).is_some());
}

/// Mutation keeps the shape; with a nonzero rate it eventually changes some
/// gene, and with rate zero it changes nothing at all.
#[test]
fn mutation_locality() {
    let mut rng = Rng::new(8);
    let mut n = NeuralNetwork::new(3, 2, vec![4], &mut rng);
    let before = genes_of(&n);
    let shape = shape_of(&n);

    n.mutate(0, &mut rng);
    assert_eq!(shape_of(&n), shape);
    assert_eq!(genes_of(&n), before);

    let mut changed = false;
    for _ in 0..10 {
        n.mutate(RATE_ONE, &mut rng);
        assert_eq!(shape_of(&n), shape);
        if genes_of(&n) != before {
            changed = true;
        }
    }
    assert!(changed);
}

/// End-to-end: a 2-input, 1-output network with one hidden layer of two
/// bounded neurons maps [0, 0] to a single value whose magnitude is bounded
/// by |bias| + |w0| + |w1| of the output neuron.
#[test]
fn end_to_end_scenario() {
    let mut rng = Rng::new(9);
    let n = NeuralNetwork::new(2, 1, vec![2], &mut rng);
    let out = n.predict(&vec![0, 0]);
    assert_eq!(out.len(), 1);
    let o = n.neuron(1, 0);
    let bound = o.bias().abs() + o.weights()[0].abs() + o.weights()[1].abs();
    assert!(out[0].abs() <= bound);
}

/// The checked prediction rejects wrong lengths and out-of-range inputs, and
/// agrees with `predict` on accepted inputs.
#[test]
fn try_predict_checks_inputs() {
    let mut rng = Rng::new(10);
    let n = NeuralNetwork::new(2, 1, vec![2], &mut rng);
    assert!(n.try_predict(&vec![0]).is_none());
    assert!(n.try_predict(&vec![0, 0, 0]).is_none());
    assert!(n.try_predict(&vec![INPUT_MAX + 1, 0]).is_none());
    assert!(n.try_predict(&vec![0, -INPUT_MAX - 1]).is_none());
    let good = vec![SCALE, -SCALE];
    assert_eq!(n.try_predict(&good), Some(n.predict(&good)));
}

/// A degenerate network with a zero-width output layer predicts an empty
/// vector and fails compatibility with naturally shaped networks.
#[test]
fn degenerate_zero_output_network() {
    let mut rng = Rng::new(11);
    let z = NeuralNetwork::new(2, 0, vec![], &mut rng);
    assert_eq!(shape_of(&z), (2, 0, vec![0]));
    assert_eq!(z.predict(&vec![0, 0]), Vec::<i64>::new());
    let n = NeuralNetwork::new(2, 1, vec![], &mut rng);
    assert!(!z.is_compatible_with(&n));
}
