//! The activation functions a neuron may apply to its weighted input sum.
use vstd::prelude::*;

verus! {

/// Activation functions. Evaluating them takes floating point and is left to
/// the host; the library only chooses between them.
#[derive(Debug, Clone, Copy, PartialEq, Eq, Structural)]
pub enum Function {
    /// 1 above zero, else 0.
    Step01,
    /// 1 above zero, else -1.
    StepNegPos,
    /// The input itself.
    Linear,
    /// 1 / (1 + e ^ -x)
    Logistic,
    /// Hyperbolic tangent.
    Tanh,
    /// The input above zero, else 0.
    ReLU,
    /// The input above zero, else a hundredth of it.
    LReLu,
    /// e ^ -(x * x)
    Gaussian,
}

/// The functions that mutation picks from, each with the same chance.
pub open spec fn is_mutation_candidate(f: Function) -> bool {
    f == Function::Linear || f == Function::Step01 || f == Function::Gaussian
        || f == Function::ReLU || f == Function::Logistic
}

/// The candidate set of mutation, in a fixed order.
pub fn mutation_candidates() -> (r: Vec<Function>)
    ensures
        r@ == seq![
            Function::Linear,
            Function::Step01,
            Function::Gaussian,
            Function::ReLU,
            Function::Logistic,
        ],
        forall|f: Function| r@.contains(f) <==> is_mutation_candidate(f),
{
    let r = vec![
        Function::Linear,
        Function::Step01,
        Function::Gaussian,
        Function::ReLU,
        Function::Logistic,
    ];
    proof {
        assert forall|f: Function| r@.contains(f) <==> is_mutation_candidate(f) by {
            if is_mutation_candidate(f) {
                if f == Function::Linear { assert(r@[0] == f); }
                else if f == Function::Step01 { assert(r@[1] == f); }
                else if f == Function::Gaussian { assert(r@[2] == f); }
                else if f == Function::ReLU { assert(r@[3] == f); }
                else { assert(r@[4] == f); }
            }
        }
    }
    r
}

} // verus!
