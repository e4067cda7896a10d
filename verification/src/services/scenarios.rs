use vstd::prelude::*;

use crate::scenario::radiation_zone::RadiationZone;

verus! {

/// Food as a scenario description states it.
#[derive(Clone, Copy, Debug, PartialEq, Eq, Structural)]
pub struct FoodFile {
    pub starting_food: u32,
    pub cull_for_starvation: bool,
}

/// Radiation as a scenario description states it.
#[derive(Debug)]
pub struct RadiationFile {
    pub death_threshold: Option<u32>,
    pub zones: Vec<RadiationZone>,
}

/// A scenario description.
#[derive(Debug)]
pub struct ScenarioFile {
    pub supplement_population: bool,
    pub limit_population: bool,
    pub food: Option<FoodFile>,
    pub radiation: Option<RadiationFile>,
}

} // verus!
