//! The two calls that the engine makes into the `rand` crate. They are the
//! only source of chance in the library, and nothing about them is proved:
//! the verifier takes their contracts on trust.

use rand::Rng;
use vstd::prelude::*;

verus! {

/// Draws an integer below `bound` with `rand::Rng::gen_range` on the
/// thread-local generator, called with the range `0..bound`. The call
/// panics on an empty range, so the bound must be positive; every value it
/// returns lies inside the range.
#[verifier::external_body]
pub(crate) fn random_below(bound: u64) -> (value: u64)
    requires
        bound > 0,
    ensures
        value < bound,
{
    rand::thread_rng().gen_range(0..bound)
}

/// Draws any 32-bit integer with `rand::random`. Nothing is promised of the
/// value.
#[verifier::external_body]
pub(crate) fn random_u32() -> u32 {
    rand::random::<u32>()
}

} // verus!
