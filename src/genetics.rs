//! Reproduction of brains: crossover between two parents and mutation of one.
//!
//! Both draw their coin flips from `rand`. Mutation also needs fresh normal
//! noise on floating-point weights; the host computes, for every gene, the
//! value that gene takes if it is redrawn, and hands those values in as a
//! brain of the same shape.
use vstd::prelude::*;

use crate::activation::{is_mutation_candidate, mutation_candidates, Function};
use crate::chance::{chance, choose_one};
use crate::network::{
    is_unconnected, layer_shape, layer_view, weight_is_unconnected, Brain, Neuron, UNCONNECTED,
};

verus! {

/// Why a crossover was refused.
#[derive(Debug, Clone, Copy, PartialEq, Eq, Structural)]
pub enum CrossoverError {
    /// The parents differ in neuron counts or weight counts.
    ShapeMismatch,
}

/// Each weight and the activation of `child` come from `a` or from `b`, at
/// the same place.
pub open spec fn neuron_from_parents(
    child: (Seq<u32>, Function),
    a: (Seq<u32>, Function),
    b: (Seq<u32>, Function),
) -> bool {
    &&& child.0.len() == a.0.len()
    &&& forall|j: int|
        0 <= j < child.0.len() ==> #[trigger] child.0[j] == a.0[j] || child.0[j] == b.0[j]
    &&& (child.1 == a.1 || child.1 == b.1)
}

pub open spec fn layer_from_parents(
    child: Seq<(Seq<u32>, Function)>,
    a: Seq<(Seq<u32>, Function)>,
    b: Seq<(Seq<u32>, Function)>,
) -> bool {
    &&& child.len() == a.len()
    &&& forall|i: int| 0 <= i < child.len() ==> neuron_from_parents(#[trigger] child[i], a[i], b[i])
}

/// Each gene taken from one of the parents, with a fair coin.
fn mix_neuron(n0: &Neuron, n1: &Neuron) -> (r: Neuron)
    requires
        n0.weights@.len() == n1.weights@.len(),
    ensures
        neuron_from_parents(r@, n0@, n1@),
{
    let mut weights: Vec<u32> = Vec::new();
    let mut i: usize = 0;
    while i < n0.weights.len()
        invariant
            n0.weights@.len() == n1.weights@.len(),
            i <= n0.weights@.len(),
            weights@.len() == i,
            forall|j: int|
                0 <= j < i ==> #[trigger] weights@[j] == n0.weights@[j] || weights@[j]
                    == n1.weights@[j],
        decreases n0.weights@.len() - i,
    {
        if chance(1, 2) {
            weights.push(n0.weights[i]);
        } else {
            weights.push(n1.weights[i]);
        }
        i = i + 1;
    }
    let activation = if chance(1, 2) {
        n0.activation
    } else {
        n1.activation
    };
    Neuron { weights, activation }
}

fn mix_layer(layer0: &Vec<Neuron>, layer1: &Vec<Neuron>) -> (r: Vec<Neuron>)
    requires
        layer_shape(layer0@) == layer_shape(layer1@),
    ensures
        layer_from_parents(layer_view(r@), layer_view(layer0@), layer_view(layer1@)),
        layer_shape(r@) == layer_shape(layer0@),
{
    let mut r: Vec<Neuron> = Vec::new();
    let mut i: usize = 0;
    proof {
        assert(layer_shape(layer0@).len() == layer0@.len());
        assert(layer_shape(layer1@).len() == layer1@.len());
    }
    while i < layer0.len()
        invariant
            layer_shape(layer0@) == layer_shape(layer1@),
            layer0@.len() == layer1@.len(),
            i <= layer0@.len(),
            r@.len() == i,
            forall|j: int|
                0 <= j < i ==> neuron_from_parents(#[trigger] r@[j]@, layer0@[j]@, layer1@[j]@),
        decreases layer0@.len() - i,
    {
        proof {
            assert(layer_shape(layer0@)[i as int] == layer_shape(layer1@)[i as int]);
        }
        let n = mix_neuron(&layer0[i], &layer1[i]);
        r.push(n);
        i = i + 1;
    }
    proof {
        assert forall|j: int| 0 <= j < r@.len() implies #[trigger] r@[j].weights@.len()
            == layer0@[j].weights@.len() by {
            assert(neuron_from_parents(r@[j]@, layer0@[j]@, layer1@[j]@));
        }
        assert(layer_shape(r@) =~= layer_shape(layer0@));
        assert forall|j: int| 0 <= j < r@.len() implies neuron_from_parents(
            #[trigger] layer_view(r@)[j],
            layer_view(layer0@)[j],
            layer_view(layer1@)[j],
        ) by {
            assert(neuron_from_parents(r@[j]@, layer0@[j]@, layer1@[j]@));
        }
    }
    r
}

/// Probabilities of mutation, in parts per thousand. Each is scaled by the
/// strength of a mutation, itself in parts per thousand.
#[derive(Debug, Clone, Copy, PartialEq, Eq, Structural)]
pub struct MutationRates {
    /// Of adding noise to a connected weight that stays connected.
    pub weight: u32,
    /// Of connecting an unconnected weight.
    pub connect: u32,
    /// Of disconnecting a connected weight.
    pub disconnect: u32,
    /// Of swapping a neuron's activation for one of the candidates.
    pub activation: u32,
}

/// Denominator of strengths and rates.
pub const PER_MILLE: u32 = 1000;

/// Denominator of a strength times a rate.
pub const PER_MILLION: u32 = 1_000_000;

/// Chances of one mutation pass, in parts per million: a strength times a
/// rate.
#[derive(Debug, Clone, Copy, PartialEq, Eq, Structural)]
pub struct Odds {
    pub weight: u32,
    pub connect: u32,
    pub disconnect: u32,
    pub activation: u32,
}

impl Odds {
    pub open spec fn valid(&self) -> bool {
        &&& self.weight <= PER_MILLION
        &&& self.connect <= PER_MILLION
        &&& self.disconnect <= PER_MILLION
        &&& self.activation <= PER_MILLION
    }

    pub open spec fn none(&self) -> bool {
        &&& self.weight == 0
        &&& self.connect == 0
        &&& self.disconnect == 0
        &&& self.activation == 0
    }
}

impl MutationRates {
    /// Every rate scaled by `strength` is a probability.
    pub open spec fn within(&self, strength: nat) -> bool {
        &&& strength * self.weight <= PER_MILLION
        &&& strength * self.connect <= PER_MILLION
        &&& strength * self.disconnect <= PER_MILLION
        &&& strength * self.activation <= PER_MILLION
    }

    /// The chances of a pass of the given strength.
    pub open spec fn odds_at(&self, strength: nat) -> Odds {
        Odds {
            weight: (strength * self.weight) as u32,
            connect: (strength * self.connect) as u32,
            disconnect: (strength * self.disconnect) as u32,
            activation: (strength * self.activation) as u32,
        }
    }

    /// Noise always, connection 15%, disconnection 25%, activation swap 40%.
    pub fn standard() -> (r: MutationRates)
        ensures
            r == (MutationRates { weight: 1000, connect: 150, disconnect: 250, activation: 400 }),
    {
        MutationRates { weight: 1000, connect: 150, disconnect: 250, activation: 400 }
    }

    pub fn odds(&self, strength: u32) -> (r: Odds)
        requires
            self.within(strength as nat),
        ensures
            r == self.odds_at(strength as nat),
            r.valid(),
    {
        Odds {
            weight: strength * self.weight,
            connect: strength * self.connect,
            disconnect: strength * self.disconnect,
            activation: strength * self.activation,
        }
    }
}

/// The new value of one weight, given the outcomes of its draws. An
/// unconnected weight is connected to its redrawn value or left as it is; a
/// connected one is disconnected, or else takes its redrawn value or is kept.
pub open spec fn weight_after(
    old: u32,
    drawn: u32,
    connect: bool,
    disconnect: bool,
    perturb: bool,
) -> u32 {
    if is_unconnected(old) {
        if connect {
            drawn
        } else {
            old
        }
    } else if disconnect {
        UNCONNECTED
    } else if perturb {
        drawn
    } else {
        old
    }
}

pub fn next_weight(old: u32, drawn: u32, connect: bool, disconnect: bool, perturb: bool) -> (r: u32)
    ensures
        r == weight_after(old, drawn, connect, disconnect, perturb),
{
    if weight_is_unconnected(old) {
        if connect {
            drawn
        } else {
            old
        }
    } else if disconnect {
        UNCONNECTED
    } else if perturb {
        drawn
    } else {
        old
    }
}

/// A draw with chance `odds` in a million can come out as `outcome`: true
/// only if the chance is not zero, false only if it is not certain.
pub open spec fn possible(outcome: bool, odds: u32) -> bool {
    if outcome {
        odds > 0
    } else {
        odds < PER_MILLION
    }
}

/// What one weight may become by mutation: its value for some outcomes of
/// the draws that the odds allow.
pub open spec fn weight_may_become(old: u32, drawn: u32, new: u32, odds: Odds) -> bool {
    exists|connect: bool, disconnect: bool, perturb: bool|
        #![trigger weight_after(old, drawn, connect, disconnect, perturb)]
        possible(connect, odds.connect) && possible(disconnect, odds.disconnect) && possible(
            perturb,
            odds.weight,
        ) && new == weight_after(old, drawn, connect, disconnect, perturb)
}

/// What an activation may become: kept if the swap can fail, one of the
/// candidates if it can succeed.
pub open spec fn activation_may_become(old: Function, new: Function, odds: Odds) -> bool {
    (possible(false, odds.activation) && new == old) || (possible(true, odds.activation)
        && is_mutation_candidate(new))
}

pub open spec fn neuron_may_become(
    old: (Seq<u32>, Function),
    drawn: (Seq<u32>, Function),
    new: (Seq<u32>, Function),
    odds: Odds,
) -> bool {
    &&& new.0.len() == old.0.len()
    &&& forall|j: int|
        0 <= j < new.0.len() ==> weight_may_become(old.0[j], drawn.0[j], #[trigger] new.0[j], odds)
    &&& activation_may_become(old.1, new.1, odds)
}

pub open spec fn layer_may_become(
    old: Seq<(Seq<u32>, Function)>,
    drawn: Seq<(Seq<u32>, Function)>,
    new: Seq<(Seq<u32>, Function)>,
    odds: Odds,
) -> bool {
    &&& new.len() == old.len()
    &&& forall|i: int|
        0 <= i < new.len() ==> neuron_may_become(old[i], drawn[i], #[trigger] new[i], odds)
}

/// What the odds settle: a certain connection or a certain redraw without
/// disconnection gives the redrawn value, a certain disconnection gives +0.0,
/// and no chance at all keeps the weight.
pub proof fn lemma_certain_draws(old: u32, drawn: u32, new: u32, odds: Odds)
    requires
        odds.valid(),
        weight_may_become(old, drawn, new, odds),
    ensures
        is_unconnected(old) && odds.connect == PER_MILLION ==> new == drawn,
        is_unconnected(old) && odds.connect == 0 ==> new == old,
        !is_unconnected(old) && odds.disconnect == PER_MILLION ==> new == UNCONNECTED,
        !is_unconnected(old) && odds.disconnect == 0 && odds.weight == PER_MILLION ==> new
            == drawn,
        !is_unconnected(old) && odds.disconnect == 0 && odds.weight == 0 ==> new == old,
{
}

/// The weight a pass draws for `old`, with the outcomes of its draws.
fn mutate_weight(old: u32, drawn: u32, odds: &Odds) -> (r: u32)
    requires
        odds.valid(),
    ensures
        weight_may_become(old, drawn, r, *odds),
        odds.none() ==> r == old,
{
    let connect: bool;
    let disconnect: bool;
    let perturb: bool;
    if weight_is_unconnected(old) {
        connect = chance(odds.connect, PER_MILLION);
        // Not drawn for an unconnected weight; any outcome the odds allow.
        disconnect = odds.disconnect > 0;
        perturb = odds.weight > 0;
    } else {
        connect = odds.connect > 0;
        disconnect = chance(odds.disconnect, PER_MILLION);
        perturb = if disconnect {
            odds.weight > 0
        } else {
            chance(odds.weight, PER_MILLION)
        };
    }
    let r = next_weight(old, drawn, connect, disconnect, perturb);
    proof {
        assert(possible(connect, odds.connect) && possible(disconnect, odds.disconnect) && possible(
            perturb,
            odds.weight,
        ) && r == weight_after(old, drawn, connect, disconnect, perturb));
    }
    r
}

fn mutate_neuron(n: &Neuron, drawn: &Neuron, odds: &Odds, candidates: &Vec<Function>) -> (r:
    Neuron)
    requires
        n.weights@.len() == drawn.weights@.len(),
        odds.valid(),
        candidates@.len() > 0,
        forall|f: Function| candidates@.contains(f) ==> is_mutation_candidate(f),
    ensures
        neuron_may_become(n@, drawn@, r@, *odds),
        odds.none() ==> r@ == n@,
{
    let mut weights: Vec<u32> = Vec::new();
    let mut i: usize = 0;
    while i < n.weights.len()
        invariant
            n.weights@.len() == drawn.weights@.len(),
            odds.valid(),
            i <= n.weights@.len(),
            weights@.len() == i,
            forall|j: int|
                0 <= j < i ==> weight_may_become(
                    n.weights@[j],
                    drawn.weights@[j],
                    #[trigger] weights@[j],
                    *odds,
                ),
            odds.none() ==> forall|j: int| 0 <= j < i ==> #[trigger] weights@[j] == n.weights@[j],
        decreases n.weights@.len() - i,
    {
        let w = mutate_weight(n.weights[i], drawn.weights[i], odds);
        weights.push(w);
        i = i + 1;
    }
    let swap = chance(odds.activation, PER_MILLION);
    let activation = if swap {
        choose_one(candidates.as_slice())
    } else {
        n.activation
    };
    proof {
        if odds.none() {
            assert(weights@ =~= n.weights@);
        }
    }
    Neuron { weights, activation }
}

fn mutate_layer(
    layer: &Vec<Neuron>,
    drawn: &Vec<Neuron>,
    odds: &Odds,
    candidates: &Vec<Function>,
) -> (r: Vec<Neuron>)
    requires
        layer_shape(layer@) == layer_shape(drawn@),
        odds.valid(),
        candidates@.len() > 0,
        forall|f: Function| candidates@.contains(f) ==> is_mutation_candidate(f),
    ensures
        layer_may_become(layer_view(layer@), layer_view(drawn@), layer_view(r@), *odds),
        layer_shape(r@) == layer_shape(layer@),
        odds.none() ==> layer_view(r@) == layer_view(layer@),
{
    let mut r: Vec<Neuron> = Vec::new();
    let mut i: usize = 0;
    proof {
        assert(layer_shape(layer@).len() == layer@.len());
        assert(layer_shape(drawn@).len() == drawn@.len());
    }
    while i < layer.len()
        invariant
            layer_shape(layer@) == layer_shape(drawn@),
            layer@.len() == drawn@.len(),
            odds.valid(),
            candidates@.len() > 0,
            forall|f: Function| candidates@.contains(f) ==> is_mutation_candidate(f),
            i <= layer@.len(),
            r@.len() == i,
            forall|j: int|
                0 <= j < i ==> neuron_may_become(layer@[j]@, drawn@[j]@, #[trigger] r@[j]@, *odds),
            odds.none() ==> forall|j: int| 0 <= j < i ==> #[trigger] r@[j]@ == layer@[j]@,
        decreases layer@.len() - i,
    {
        proof {
            assert(layer_shape(layer@)[i as int] == layer_shape(drawn@)[i as int]);
        }
        let n = mutate_neuron(&layer[i], &drawn[i], odds, candidates);
        r.push(n);
        i = i + 1;
    }
    proof {
        assert forall|j: int| 0 <= j < r@.len() implies #[trigger] r@[j].weights@.len()
            == layer@[j].weights@.len() by {
            assert(neuron_may_become(layer@[j]@, drawn@[j]@, r@[j]@, *odds));
        }
        assert(layer_shape(r@) =~= layer_shape(layer@));
        assert forall|j: int| 0 <= j < r@.len() implies neuron_may_become(
            layer_view(layer@)[j],
            layer_view(drawn@)[j],
            #[trigger] layer_view(r@)[j],
            *odds,
        ) by {
            assert(neuron_may_become(layer@[j]@, drawn@[j]@, r@[j]@, *odds));
        }
        if odds.none() {
            assert(layer_view(r@) =~= layer_view(layer@));
        }
    }
    r
}

/// Same shape gives the same well-formedness.
proof fn lemma_shape_keeps_wf(a: &Brain, b: &Brain)
    requires
        a.shape() == b.shape(),
        a.wf(),
    ensures
        b.wf(),
{
    assert(layer_shape(a.hidden_layer@).len() == layer_shape(b.hidden_layer@).len());
    assert forall|i: int| 0 <= i < b.hidden_layer@.len() implies #[trigger] b.hidden_layer@[i].weights@.len()
        == crate::network::INPUT_COUNT + 1 by {
        assert(layer_shape(a.hidden_layer@)[i] == layer_shape(b.hidden_layer@)[i]);
    }
    assert(layer_shape(a.output_layer@).len() == layer_shape(b.output_layer@).len());
    assert forall|i: int| 0 <= i < b.output_layer@.len() implies #[trigger] b.output_layer@[i].weights@.len()
        == b.hidden_layer@.len() + 1 by {
        assert(layer_shape(a.output_layer@)[i] == layer_shape(b.output_layer@)[i]);
    }
}

impl Brain {
    /// Crossover: every weight and every activation is taken from one parent
    /// or the other, with a fair coin for each. The parents must have the same
    /// shape.
    pub fn mix_with(&self, other: &Brain) -> (r: Result<Brain, CrossoverError>)
        ensures
            r is Err <==> self.shape() != other.shape(),
            r matches Ok(child) ==> {
                &&& child.shape() == self.shape()
                &&& (self.wf() ==> child.wf())
                &&& layer_from_parents(child@.0, self@.0, other@.0)
                &&& layer_from_parents(child@.1, self@.1, other@.1)
                &&& child.mut_count == self.mut_count.saturating_add(other.mut_count)
            },
    {
        if !self.same_shape(other) {
            return Err(CrossoverError::ShapeMismatch);
        }
        let child = Brain {
            hidden_layer: mix_layer(&self.hidden_layer, &other.hidden_layer),
            output_layer: mix_layer(&self.output_layer, &other.output_layer),
            mut_count: self.mut_count.saturating_add(other.mut_count),
        };
        proof {
            if self.wf() {
                lemma_shape_keeps_wf(self, &child);
            }
        }
        Ok(child)
    }

    /// Randomly alters the brain, according to a strength in parts per
    /// thousand. Every weight of every neuron is drawn on:
    /// an unconnected one is connected with chance `strength * connect`;
    /// a connected one is disconnected with chance `strength * disconnect`,
    /// and otherwise redrawn with chance `strength * weight`.
    /// Each neuron's activation is swapped, with chance
    /// `strength * activation`, for one of the candidates picked uniformly.
    /// `drawn` holds at each gene the value it takes when redrawn.
    pub fn mutate(self, strength: u32, rates: &MutationRates, drawn: &Brain) -> (r: Brain)
        requires
            rates.within(strength as nat),
            drawn.shape() == self.shape(),
        ensures
            r.shape() == self.shape(),
            self.wf() ==> r.wf(),
            layer_may_become(self@.0, drawn@.0, r@.0, rates.odds_at(strength as nat)),
            layer_may_become(self@.1, drawn@.1, r@.1, rates.odds_at(strength as nat)),
            r.mut_count == self.mut_count.saturating_add(1),
            strength == 0 ==> r@ == self@,
    {
        let odds = rates.odds(strength);
        proof {
            if strength == 0 {
                assert(0 * rates.weight == 0 && 0 * rates.connect == 0 && 0 * rates.disconnect == 0
                    && 0 * rates.activation == 0) by (nonlinear_arith);
                assert(odds.none());
            }
        }
        let candidates = mutation_candidates();
        let r = Brain {
            hidden_layer: mutate_layer(&self.hidden_layer, &drawn.hidden_layer, &odds, &candidates),
            output_layer: mutate_layer(&self.output_layer, &drawn.output_layer, &odds, &candidates),
            mut_count: self.mut_count.saturating_add(1),
        };
        proof {
            if self.wf() {
                lemma_shape_keeps_wf(&self, &r);
            }
        }
        r
    }
}

} // verus!
