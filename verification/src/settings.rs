use vstd::prelude::*;

verus! {

/// Settings of evolution; there are none yet.
#[derive(Clone, Copy, Debug)]
pub struct Evolution {}

} // verus!
