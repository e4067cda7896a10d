//! Values that the engine exchanges with its host.

pub mod scenarios;
