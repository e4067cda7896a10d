use vstd::prelude::*;

verus! {

/// A rectangle of the grid that kills for a span of steps.
#[derive(Clone, Copy, Debug)]
pub struct KillZone {
    pub start_time: usize,
    pub end_time: usize,
    pub position: (u32, u32),
    pub width: u32,
    pub height: u32,
}

} // verus!
