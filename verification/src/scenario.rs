//! What a scenario puts on the grid: radiation zones that come and go, and
//! food.

pub mod food;
pub mod kill_zone;
pub mod radiation_zone;
pub mod scenario;
pub mod scenario_config;
