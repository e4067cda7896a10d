use vstd::prelude::*;

use crate::kill_zone::KillZone;

verus! {

/// Length of a generation and the zones that kill during it.
#[derive(Debug)]
pub struct SimulationConfig {
    pub generation_step_count: usize,
    pub kill_zones: Vec<KillZone>,
}

} // verus!
