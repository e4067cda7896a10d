use vstd::prelude::*;

use super::kill_zone::KillZone;

verus! {

/// Length of a generation and the zones that kill during it.
#[derive(Debug)]
pub struct ScenarioConfig {
    pub generation_step_count: usize,
    pub kill_zones: Vec<KillZone>,
}

} // verus!
