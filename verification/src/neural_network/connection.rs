use vstd::prelude::*;

verus! {

/// A weighted edge between two neurons of a brain, addressed by their
/// positions in the brain's neuron list. The weight is in millionths.
#[derive(Clone, Copy, Debug, PartialEq, Eq, PartialOrd, Ord, Structural)]
pub struct Connection {
    pub source: usize,
    pub target: usize,
    pub weight: i32,
}

} // verus!
