//! Neuroevolution for arena agents: a small feed-forward network (the brain),
//! a gene pool that breeds and culls brains by fitness, the state machine that
//! drives game rounds, the scoring of arena collisions, and the asset-pack
//! container format.

mod chance;

pub mod activation;
pub mod network;
pub mod genetics;
pub mod pool;
pub mod fsm;
pub mod paq;
pub mod contact;
pub mod predicate;
