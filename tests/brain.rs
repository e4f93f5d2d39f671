use last_stander::activation::{mutation_candidates, Function};
use last_stander::genetics::{next_weight, CrossoverError, MutationRates};
use last_stander::network::{
    Brain, Neuron, NodeId, BARELY_CONNECTED, INPUT_COUNT, NEGATIVE_ZERO, OUTPUT_COUNT, UNCONNECTED,
};

fn shape(b: &Brain) -> (Vec<usize>, Vec<usize>) {
    (
        b.hidden_layer.iter().map(|n| n.weights.len()).collect(),
        b.output_layer.iter().map(|n| n.weights.len()).collect(),
    )
}

fn bits(x: f32) -> u32 {
    x.to_bits()
}

#[test]
fn barely_connected_is_a_thousandth() {
    assert_eq!(f32::from_bits(BARELY_CONNECTED), 0.001);
    assert_eq!(f32::from_bits(NEGATIVE_ZERO), 0.0);
    assert_eq!(UNCONNECTED, 0.0f32.to_bits());
}

#[test]
fn dumb_brain_shape() {
    for n in [3u8, 4, 7, 30] {
        let b = Brain::new_dumb(n);
        assert_eq!(b.hidden_layer.len(), n as usize);
        assert_eq!(b.output_layer.len(), OUTPUT_COUNT);
        for neuron in &b.hidden_layer {
            assert_eq!(neuron.weights.len(), INPUT_COUNT + 1);
        }
        for neuron in &b.output_layer {
            assert_eq!(neuron.weights.len(), n as usize + 1);
        }
    }
}

#[test]
fn dumb_brain_genes() {
    let b = Brain::new_dumb(4);
    for i in 0..3 {
        assert_eq!(b.hidden_layer[i].weights, vec![BARELY_CONNECTED; 3]);
        assert_eq!(b.hidden_layer[i].activation, Function::Linear);
        let mut expected = vec![UNCONNECTED; 5];
        expected[i] = BARELY_CONNECTED;
        assert_eq!(b.output_layer[i].weights, expected);
    }
    assert_eq!(b.hidden_layer[3].weights, vec![UNCONNECTED; 3]);
    assert_eq!(b.mut_count, 0);
}

#[test]
fn structural_equality() {
    let a = Brain::new_dumb(3);
    let mut b = Brain::new_dumb(3);
    assert!(a == b);
    assert!(a.same_as(&b));
    b.mut_count = 9;
    assert!(a == b);
    b.output_layer[1].activation = Function::Gaussian;
    assert!(a != b);
    let mut c = Brain::new_dumb(3);
    c.hidden_layer[0].weights[2] = bits(0.5);
    assert!(a != c);
    assert!(Brain::new_dumb(3) != Brain::new_dumb(4));
}

#[test]
fn crossover_takes_every_gene_from_a_parent() {
    let a = Brain::new_dumb(5);
    let mut b = Brain::new_dumb(5);
    for n in b.hidden_layer.iter_mut().chain(b.output_layer.iter_mut()) {
        for w in n.weights.iter_mut() {
            *w = bits(2.5);
        }
        n.activation = Function::Tanh;
    }
    b.mut_count = 3;
    for _ in 0..20 {
        let child = a.mix_with(&b).unwrap();
        assert_eq!(shape(&child), shape(&a));
        assert_eq!(child.mut_count, 3);
        let layers = [
            (&child.hidden_layer, &a.hidden_layer, &b.hidden_layer),
            (&child.output_layer, &a.output_layer, &b.output_layer),
        ];
        for (c, x, y) in layers {
            for i in 0..c.len() {
                for j in 0..c[i].weights.len() {
                    let w = c[i].weights[j];
                    assert!(w == x[i].weights[j] || w == y[i].weights[j]);
                }
                let f = c[i].activation;
                assert!(f == x[i].activation || f == y[i].activation);
            }
        }
    }
}

#[test]
fn crossover_of_a_brain_with_itself_is_that_brain() {
    let a = Brain::new_dumb(6);
    assert!(a.mix_with(&a).unwrap() == a);
}

#[test]
fn crossover_refuses_other_shapes() {
    let a = Brain::new_dumb(3);
    let b = Brain::new_dumb(4);
    assert_eq!(a.mix_with(&b).unwrap_err(), CrossoverError::ShapeMismatch);
    let mut c = Brain::new_dumb(3);
    c.hidden_layer[1].weights.push(UNCONNECTED);
    assert_eq!(a.mix_with(&c).unwrap_err(), CrossoverError::ShapeMismatch);
    assert!(!a.same_shape(&c));
}

#[test]
fn weight_decision_table() {
    let w = bits(0.3);
    let d = bits(-1.25);
    assert_eq!(next_weight(UNCONNECTED, d, true, false, false), d);
    assert_eq!(next_weight(NEGATIVE_ZERO, d, false, true, true), NEGATIVE_ZERO);
    assert_eq!(next_weight(w, d, true, true, true), UNCONNECTED);
    assert_eq!(next_weight(w, d, false, false, true), d);
    assert_eq!(next_weight(w, d, true, false, false), w);
}

fn redrawn(b: &Brain, value: f32) -> Brain {
    let mut d = b.clone();
    for n in d.hidden_layer.iter_mut().chain(d.output_layer.iter_mut()) {
        for w in n.weights.iter_mut() {
            *w = bits(value);
        }
    }
    d
}

#[test]
fn mutation_keeps_shape() {
    let b = Brain::new_dumb(5);
    let drawn = redrawn(&b, 0.75);
    let m = b.clone().mutate(1000, &MutationRates::standard(), &drawn);
    assert_eq!(shape(&m), shape(&b));
    assert_eq!(m.mut_count, 1);
    let candidates = mutation_candidates();
    for (layer, old) in [(&m.hidden_layer, &b.hidden_layer), (&m.output_layer, &b.output_layer)] {
        for i in 0..layer.len() {
            for j in 0..layer[i].weights.len() {
                let w = layer[i].weights[j];
                assert!(w == UNCONNECTED || w == old[i].weights[j] || w == bits(0.75));
            }
            let f = layer[i].activation;
            assert!(f == old[i].activation || candidates.contains(&f));
        }
    }
}

#[test]
fn mutation_of_strength_zero_changes_no_gene() {
    let mut b = Brain::new_dumb(4);
    b.hidden_layer[3].weights[0] = NEGATIVE_ZERO;
    let drawn = redrawn(&b, 9.0);
    let m = b.clone().mutate(0, &MutationRates::standard(), &drawn);
    assert_eq!(m.hidden_layer[3].weights[0], NEGATIVE_ZERO);
    assert!(m == b);
    assert!(m != Brain::new_dumb(4));
}

#[test]
fn full_mutation_redraws_every_connected_weight() {
    let b = Brain::new_dumb(3);
    let drawn = redrawn(&b, 0.25);
    let rates = MutationRates { weight: 1000, connect: 1000, disconnect: 0, activation: 1000 };
    let m = b.mutate(1000, &rates, &drawn);
    for n in m.hidden_layer.iter().chain(m.output_layer.iter()) {
        assert!(n.weights.iter().all(|w| *w == bits(0.25)));
        assert!(mutation_candidates().contains(&n.activation));
    }
    assert!(m.hidden_layer[0].weights != Brain::new_dumb(3).hidden_layer[0].weights);
}

#[test]
fn full_disconnection() {
    let b = Brain::new_dumb(3);
    let drawn = redrawn(&b, 0.25);
    let rates = MutationRates { weight: 0, connect: 0, disconnect: 1000, activation: 0 };
    let m = b.mutate(1000, &rates, &drawn);
    for n in m.hidden_layer.iter().chain(m.output_layer.iter()) {
        assert!(n.weights.iter().all(|w| *w == UNCONNECTED));
        assert_eq!(n.activation, Function::Linear);
    }
}

#[test]
fn strength_above_one_thousandth_per_rate_is_accepted() {
    let b = Brain::new_dumb(3);
    let drawn = redrawn(&b, 0.5);
    let rates = MutationRates { weight: 400, connect: 100, disconnect: 250, activation: 400 };
    let m = b.clone().mutate(2500, &rates, &drawn);
    assert_eq!(shape(&m), shape(&b));
    for n in m.hidden_layer.iter().chain(m.output_layer.iter()) {
        for w in &n.weights {
            assert!(*w == UNCONNECTED || *w == BARELY_CONNECTED || *w == bits(0.5));
        }
    }
}

#[test]
fn candidate_set() {
    assert_eq!(
        mutation_candidates(),
        vec![Function::Linear, Function::Step01, Function::Gaussian, Function::ReLU, Function::Logistic]
    );
}

#[test]
fn drawing_layers() {
    let b = Brain::new_dumb(4);
    let layers = b.get_layers();
    assert_eq!(layers[0], vec![NodeId(0), NodeId(1), NodeId(2)]);
    assert_eq!(layers[1], (3..8).map(NodeId).collect::<Vec<_>>());
    assert_eq!(layers[2], vec![NodeId(8), NodeId(9), NodeId(10)]);
    let nodes = b.get_node_layers();
    assert_eq!(nodes.len(), 11);
    assert_eq!(nodes[2], (NodeId(2), 0));
    assert_eq!(nodes[3], (NodeId(3), 1));
    assert_eq!(nodes[7], (NodeId(7), 1));
    assert_eq!(nodes[8], (NodeId(8), 2));
}

#[test]
fn neuron_clone_and_equality() {
    let n = Neuron { weights: vec![1, 2, 3], activation: Function::ReLU };
    assert!(n.clone() == n);
    assert!(n != Neuron { weights: vec![1, 2], activation: Function::ReLU });
}
