//! The brain: one hidden layer and one output layer of fully connected
//! neurons. Each neuron has one weight per input plus a bias weight, whose
//! input is fixed at one.
//!
//! A weight is held as the bit pattern of an IEEE-754 single-precision number,
//! so that two brains are equal exactly when their weights are bit-identical
//! and their activations agree. Evaluating a brain is floating-point work and
//! is done by the host on those bit patterns.
use vstd::prelude::*;

use crate::activation::Function;

verus! {

/// Number of sensor inputs a brain reads (the bias input not counted).
pub const INPUT_COUNT: usize = 2;

/// Number of motor outputs a brain produces.
pub const OUTPUT_COUNT: usize = 3;

/// The weight of a synapse that passes nothing: +0.0.
pub const UNCONNECTED: u32 = 0;

/// -0.0, which is unconnected as well.
pub const NEGATIVE_ZERO: u32 = 0x8000_0000;

/// The smallest weight of the starting brains: 0.001.
pub const BARELY_CONNECTED: u32 = 0x3a83_126f;

/// A weight that is zero, of either sign.
pub open spec fn is_unconnected(w: u32) -> bool {
    w == UNCONNECTED || w == NEGATIVE_ZERO
}

pub fn weight_is_unconnected(w: u32) -> (r: bool)
    ensures
        r == is_unconnected(w),
{
    w == UNCONNECTED || w == NEGATIVE_ZERO
}

/// Basic neuron. Bias is an input.
#[derive(Debug)]
pub struct Neuron {
    pub weights: Vec<u32>,
    pub activation: Function,
}

impl View for Neuron {
    type V = (Seq<u32>, Function);

    open spec fn view(&self) -> (Seq<u32>, Function) {
        (self.weights@, self.activation)
    }
}

impl Clone for Neuron {
    fn clone(&self) -> (r: Self)
        ensures
            r@ == self@,
    {
        Neuron { weights: self.weights.clone(), activation: self.activation }
    }
}

impl Neuron {
    /// Same weights, bit for bit, and the same activation.
    pub fn same_as(&self, other: &Neuron) -> (r: bool)
        ensures
            r == (self@ == other@),
    {
        if self.activation != other.activation || self.weights.len() != other.weights.len() {
            return false;
        }
        let mut i: usize = 0;
        while i < self.weights.len()
            invariant
                self.weights@.len() == other.weights@.len(),
                i <= self.weights@.len(),
                forall|j: int| 0 <= j < i ==> self.weights@[j] == other.weights@[j],
            decreases self.weights@.len() - i,
        {
            if self.weights[i] != other.weights[i] {
                return false;
            }
            i = i + 1;
        }
        proof {
            assert(self.weights@ =~= other.weights@);
        }
        true
    }
}

impl PartialEq for Neuron {
    fn eq(&self, other: &Neuron) -> (r: bool) {
        self.same_as(other)
    }
}

impl vstd::std_specs::cmp::PartialEqSpecImpl for Neuron {
    open spec fn obeys_eq_spec() -> bool {
        true
    }

    open spec fn eq_spec(&self, other: &Neuron) -> bool {
        self@ == other@
    }
}

/// What a layer holds, neuron by neuron.
pub open spec fn layer_view(layer: Seq<Neuron>) -> Seq<(Seq<u32>, Function)> {
    layer.map_values(|n: Neuron| n@)
}

/// How many weights each neuron of a layer has.
pub open spec fn layer_shape(layer: Seq<Neuron>) -> Seq<nat> {
    layer.map_values(|n: Neuron| n.weights@.len())
}

/// `len` copies of one weight.
pub open spec fn filled(len: nat, w: u32) -> Seq<u32> {
    Seq::new(len, |i: int| w)
}

fn fill_weights(len: usize, w: u32) -> (r: Vec<u32>)
    ensures
        r@ == filled(len as nat, w),
{
    let mut r: Vec<u32> = Vec::new();
    let mut i: usize = 0;
    while i < len
        invariant
            i <= len,
            r@ == filled(i as nat, w),
        decreases len - i,
    {
        r.push(w);
        i = i + 1;
        proof {
            assert(r@ =~= filled(i as nat, w));
        }
    }
    r
}

/// A linear neuron whose every synapse, bias included, is unconnected.
fn unconnected_neuron(synapse_count: u8) -> (r: Neuron)
    ensures
        r@ == (filled(synapse_count as nat + 1, UNCONNECTED), Function::Linear),
{
    Neuron { weights: fill_weights(synapse_count as usize + 1, UNCONNECTED), activation: Function::Linear }
}

/// Does as little as possible while staying fully connected.
fn dumb_neuron(synapse_count: u8) -> (r: Neuron)
    ensures
        r@ == (filled(synapse_count as nat + 1, BARELY_CONNECTED), Function::Linear),
{
    Neuron {
        weights: fill_weights(synapse_count as usize + 1, BARELY_CONNECTED),
        activation: Function::Linear,
    }
}

/// The first `output_count` neurons barely connected, the rest unconnected.
fn dumb_hidden_layer(num_neurons: u8, output_count: u8) -> (r: Vec<Neuron>)
    requires
        output_count <= num_neurons,
    ensures
        r@.len() == num_neurons,
        forall|i: int|
            0 <= i < output_count ==> #[trigger] r@[i]@ == (
                filled(INPUT_COUNT as nat + 1, BARELY_CONNECTED),
                Function::Linear,
            ),
        forall|i: int|
            output_count <= i < num_neurons ==> #[trigger] r@[i]@ == (
                filled(INPUT_COUNT as nat + 1, UNCONNECTED),
                Function::Linear,
            ),
{
    let mut r: Vec<Neuron> = Vec::new();
    let mut i: u8 = 0;
    while i < num_neurons
        invariant
            output_count <= num_neurons,
            i <= num_neurons,
            r@.len() == i,
            forall|j: int|
                0 <= j < i && j < output_count ==> #[trigger] r@[j]@ == (
                    filled(INPUT_COUNT as nat + 1, BARELY_CONNECTED),
                    Function::Linear,
                ),
            forall|j: int|
                output_count <= j < i ==> #[trigger] r@[j]@ == (
                    filled(INPUT_COUNT as nat + 1, UNCONNECTED),
                    Function::Linear,
                ),
        decreases num_neurons - i,
    {
        if i < output_count {
            r.push(dumb_neuron(INPUT_COUNT as u8));
        } else {
            r.push(unconnected_neuron(INPUT_COUNT as u8));
        }
        i = i + 1;
    }
    r
}

/// Output neuron `i` barely connected to hidden neuron `i` and to nothing else.
pub open spec fn dumb_output_weights(synapse_count: nat, i: int) -> Seq<u32> {
    filled(synapse_count as nat + 1, UNCONNECTED).update(i, BARELY_CONNECTED)
}

fn dumb_output_layer(num_outputs: usize, synapse_count: u8) -> (r: Vec<Neuron>)
    requires
        num_outputs <= synapse_count + 1,
    ensures
        r@.len() == num_outputs,
        forall|i: int|
            0 <= i < num_outputs ==> #[trigger] r@[i]@ == (
                dumb_output_weights(synapse_count as nat, i),
                Function::Linear,
            ),
{
    let mut r: Vec<Neuron> = Vec::new();
    let mut i: usize = 0;
    while i < num_outputs
        invariant
            num_outputs <= synapse_count + 1,
            i <= num_outputs,
            r@.len() == i,
            forall|j: int|
                0 <= j < i ==> #[trigger] r@[j]@ == (
                    dumb_output_weights(synapse_count as nat, j),
                    Function::Linear,
                ),
        decreases num_outputs - i,
    {
        // Connect each neuron with the one directly "above" it.
        // It leaves the "overflow" of hidden neurons unconnected.
        let mut n = unconnected_neuron(synapse_count);
        n.weights.set(i, BARELY_CONNECTED);
        r.push(n);
        i = i + 1;
    }
    r
}

/// Brain used by the last stand hero.
/// Uses a single hidden layer of neurons.
#[derive(Debug)]
pub struct Brain {
    pub hidden_layer: Vec<Neuron>,
    pub output_layer: Vec<Neuron>,
    /// How many times this genotype went through mutation.
    pub mut_count: u16,
}

impl View for Brain {
    type V = (Seq<(Seq<u32>, Function)>, Seq<(Seq<u32>, Function)>);

    /// The genes: weights and activations of both layers. The mutation
    /// counter is bookkeeping and takes no part in equality.
    open spec fn view(&self) -> Self::V {
        (layer_view(self.hidden_layer@), layer_view(self.output_layer@))
    }
}

/// Copies a layer neuron by neuron.
fn clone_layer(layer: &Vec<Neuron>) -> (r: Vec<Neuron>)
    ensures
        layer_view(r@) == layer_view(layer@),
        layer_shape(r@) == layer_shape(layer@),
{
    let mut r: Vec<Neuron> = Vec::new();
    let mut i: usize = 0;
    while i < layer.len()
        invariant
            i <= layer@.len(),
            r@.len() == i,
            forall|j: int| 0 <= j < i ==> #[trigger] r@[j]@ == layer@[j]@,
        decreases layer@.len() - i,
    {
        r.push(layer[i].clone());
        i = i + 1;
    }
    proof {
        assert(layer_view(r@) =~= layer_view(layer@));
        assert forall|j: int| 0 <= j < r@.len() implies #[trigger] r@[j].weights@.len()
            == layer@[j].weights@.len() by {
            assert(r@[j]@ == layer@[j]@);
        }
        assert(layer_shape(r@) =~= layer_shape(layer@));
    }
    r
}

/// Same genes in two layers.
fn same_layer(a: &Vec<Neuron>, b: &Vec<Neuron>) -> (r: bool)
    ensures
        r == (layer_view(a@) == layer_view(b@)),
{
    if a.len() != b.len() {
        proof {
            assert(layer_view(a@).len() != layer_view(b@).len());
        }
        return false;
    }
    let mut i: usize = 0;
    while i < a.len()
        invariant
            a@.len() == b@.len(),
            i <= a@.len(),
            forall|j: int| 0 <= j < i ==> #[trigger] a@[j]@ == b@[j]@,
        decreases a@.len() - i,
    {
        if !a[i].same_as(&b[i]) {
            proof {
                assert(layer_view(a@)[i as int] != layer_view(b@)[i as int]);
            }
            return false;
        }
        i = i + 1;
    }
    proof {
        assert(layer_view(a@) =~= layer_view(b@));
    }
    true
}

/// Same number of neurons, and of weights neuron by neuron, in two layers.
fn same_layer_shape(a: &Vec<Neuron>, b: &Vec<Neuron>) -> (r: bool)
    ensures
        r == (layer_shape(a@) == layer_shape(b@)),
{
    if a.len() != b.len() {
        proof {
            assert(layer_shape(a@).len() != layer_shape(b@).len());
        }
        return false;
    }
    let mut i: usize = 0;
    while i < a.len()
        invariant
            a@.len() == b@.len(),
            i <= a@.len(),
            forall|j: int| 0 <= j < i ==> #[trigger] a@[j].weights@.len() == b@[j].weights@.len(),
        decreases a@.len() - i,
    {
        if a[i].weights.len() != b[i].weights.len() {
            proof {
                assert(layer_shape(a@)[i as int] != layer_shape(b@)[i as int]);
            }
            return false;
        }
        i = i + 1;
    }
    proof {
        assert(layer_shape(a@) =~= layer_shape(b@));
    }
    true
}

/// The brain that `new_dumb(hidden_neurons)` builds, gene for gene.
pub open spec fn is_dumb(b: Brain, hidden_neurons: nat) -> bool {
    &&& b.wf()
    &&& b.hidden_layer@.len() == hidden_neurons
    &&& b.output_layer@.len() == OUTPUT_COUNT
    &&& forall|i: int|
        0 <= i < OUTPUT_COUNT ==> #[trigger] b.hidden_layer@[i]@ == (
            filled(INPUT_COUNT as nat + 1, BARELY_CONNECTED),
            Function::Linear,
        )
    &&& forall|i: int|
        OUTPUT_COUNT <= i < hidden_neurons ==> #[trigger] b.hidden_layer@[i]@ == (
            filled(INPUT_COUNT as nat + 1, UNCONNECTED),
            Function::Linear,
        )
    &&& forall|i: int|
        0 <= i < OUTPUT_COUNT ==> #[trigger] b.output_layer@[i]@ == (
            dumb_output_weights(hidden_neurons, i),
            Function::Linear,
        )
}

impl Brain {
    /// Neuron counts and weight counts of both layers.
    pub open spec fn shape(&self) -> (Seq<nat>, Seq<nat>) {
        (layer_shape(self.hidden_layer@), layer_shape(self.output_layer@))
    }

    /// Every hidden neuron reads the inputs and the bias; every output neuron
    /// reads the hidden neurons and the bias.
    pub open spec fn wf(&self) -> bool {
        &&& forall|i: int|
            0 <= i < self.hidden_layer@.len() ==> #[trigger] self.hidden_layer@[i].weights@.len()
                == INPUT_COUNT + 1
        &&& forall|i: int|
            0 <= i < self.output_layer@.len() ==> #[trigger] self.output_layer@[i].weights@.len()
                == self.hidden_layer@.len() + 1
    }

    /// A brain that acts almost as a no-op: the first `OUTPUT_COUNT` hidden
    /// neurons are barely connected to everything, the others unconnected, and
    /// output neuron `i` is barely connected to hidden neuron `i` alone.
    pub fn new_dumb(hidden_neurons: u8) -> (r: Brain)
        requires
            hidden_neurons >= OUTPUT_COUNT,
        ensures
            is_dumb(r, hidden_neurons as nat),
            r.mut_count == 0,
    {
        let r = Brain {
            hidden_layer: dumb_hidden_layer(hidden_neurons, OUTPUT_COUNT as u8),
            output_layer: dumb_output_layer(OUTPUT_COUNT, hidden_neurons),
            mut_count: 0,
        };
        proof {
            assert forall|i: int| 0 <= i < r.hidden_layer@.len() implies
                #[trigger] r.hidden_layer@[i].weights@.len() == INPUT_COUNT + 1 by {
                if i < OUTPUT_COUNT {
                    assert(r.hidden_layer@[i]@.0 == filled(INPUT_COUNT as nat + 1, BARELY_CONNECTED));
                } else {
                    assert(r.hidden_layer@[i]@.0 == filled(INPUT_COUNT as nat + 1, UNCONNECTED));
                }
            }
            assert forall|i: int| 0 <= i < r.output_layer@.len() implies
                #[trigger] r.output_layer@[i].weights@.len() == r.hidden_layer@.len() + 1 by {
                assert(r.output_layer@[i]@.0 == dumb_output_weights(hidden_neurons as nat, i));
            }
        }
        r
    }

    /// Same genes: bit-identical weights and the same activations.
    pub fn same_as(&self, other: &Brain) -> (r: bool)
        ensures
            r == (self@ == other@),
    {
        let h = same_layer(&self.hidden_layer, &other.hidden_layer);
        let o = same_layer(&self.output_layer, &other.output_layer);
        h && o
    }

    /// Same layer sizes and weight counts.
    pub fn same_shape(&self, other: &Brain) -> (r: bool)
        ensures
            r == (self.shape() == other.shape()),
    {
        let h = same_layer_shape(&self.hidden_layer, &other.hidden_layer);
        let o = same_layer_shape(&self.output_layer, &other.output_layer);
        h && o
    }
}

/// A node of the network drawing: inputs and bias first, then the hidden
/// neurons and their bias, then the outputs.
#[derive(Clone, Copy, Hash, PartialEq, Eq, Debug, Structural)]
pub struct NodeId(pub usize);

/// The node ids `start`, `start + 1`, ... of `len` nodes.
pub open spec fn ids_from(start: int, len: nat) -> Seq<NodeId> {
    Seq::new(len, |i: int| NodeId((start + i) as usize))
}

fn node_ids(start: usize, len: usize) -> (r: Vec<NodeId>)
    requires
        start + len <= usize::MAX,
    ensures
        r@ == ids_from(start as int, len as nat),
{
    let mut r: Vec<NodeId> = Vec::new();
    let mut i: usize = 0;
    while i < len
        invariant
            start + len <= usize::MAX,
            i <= len,
            r@ == ids_from(start as int, i as nat),
        decreases len - i,
    {
        r.push(NodeId(start + i));
        i = i + 1;
        proof {
            assert(r@ =~= ids_from(start as int, i as nat));
        }
    }
    r
}

impl Brain {
    /// Number of nodes in the drawing of the network.
    pub open spec fn node_count(&self) -> int {
        INPUT_COUNT + 1 + self.hidden_layer@.len() + 1 + self.output_layer@.len()
    }

    /// The layer of node `i` in the drawing: 0 for inputs and their bias, 1
    /// for hidden neurons and their bias, 2 for outputs.
    pub open spec fn layer_of(&self, i: int) -> u8 {
        if i < INPUT_COUNT + 1 {
            0
        } else if i < INPUT_COUNT + 1 + self.hidden_layer@.len() + 1 {
            1
        } else {
            2
        }
    }

    /// The node ids of each layer of the drawing.
    pub fn get_layers(&self) -> (r: Vec<Vec<NodeId>>)
        requires
            self.node_count() <= usize::MAX,
        ensures
            r@.len() == 3,
            r@[0]@ == ids_from(0, INPUT_COUNT as nat + 1),
            r@[1]@ == ids_from(INPUT_COUNT + 1, self.hidden_layer@.len() + 1),
            r@[2]@ == ids_from(
                INPUT_COUNT + 1 + self.hidden_layer@.len() + 1,
                self.output_layer@.len(),
            ),
    {
        let hidden_start = INPUT_COUNT + 1;
        let output_start = hidden_start + self.hidden_layer.len() + 1;
        let mut r: Vec<Vec<NodeId>> = Vec::new();
        r.push(node_ids(0, INPUT_COUNT + 1));
        r.push(node_ids(hidden_start, self.hidden_layer.len() + 1));
        r.push(node_ids(output_start, self.output_layer.len()));
        r
    }

    /// Every node of the drawing with its layer.
    pub fn get_node_layers(&self) -> (r: Vec<(NodeId, u8)>)
        requires
            self.node_count() <= usize::MAX,
        ensures
            r@.len() == self.node_count(),
            forall|i: int| 0 <= i < r@.len() ==> #[trigger] r@[i] == (NodeId(i as usize), self.layer_of(i)),
    {
        let hidden_start = INPUT_COUNT + 1;
        let output_start = hidden_start + self.hidden_layer.len() + 1;
        let count = output_start + self.output_layer.len();
        let mut r: Vec<(NodeId, u8)> = Vec::new();
        let mut i: usize = 0;
        while i < count
            invariant
                hidden_start == INPUT_COUNT + 1,
                output_start == INPUT_COUNT + 1 + self.hidden_layer@.len() + 1,
                count == self.node_count(),
                i <= count,
                r@.len() == i,
                forall|j: int| 0 <= j < i ==> #[trigger] r@[j] == (NodeId(j as usize), self.layer_of(j)),
            decreases count - i,
        {
            let layer: u8 = if i < hidden_start {
                0
            } else if i < output_start {
                1
            } else {
                2
            };
            r.push((NodeId(i), layer));
            i = i + 1;
        }
        r
    }
}

impl Clone for Brain {
    fn clone(&self) -> (r: Self)
        ensures
            r@ == self@,
            r.shape() == self.shape(),
            r.mut_count == self.mut_count,
    {
        Brain {
            hidden_layer: clone_layer(&self.hidden_layer),
            output_layer: clone_layer(&self.output_layer),
            mut_count: self.mut_count,
        }
    }
}

impl PartialEq for Brain {
    fn eq(&self, other: &Brain) -> (r: bool) {
        self.same_as(other)
    }
}

impl vstd::std_specs::cmp::PartialEqSpecImpl for Brain {
    open spec fn obeys_eq_spec() -> bool {
        true
    }

    open spec fn eq_spec(&self, other: &Brain) -> bool {
        self@ == other@
    }
}

} // verus!
