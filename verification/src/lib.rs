//! A neuroevolution engine for grid-bound agents.
//!
//! A genome is a flat list of genes; decoding it yields a brain, a graph of
//! typed neurons and weighted connections. Brains choose one action per tick,
//! genomes mutate between generations, and the population manager breeds the
//! next generation from the survivors of the last one.
//!
//! Every real-valued quantity is held as a fixed-point integer: weights and
//! signals in millionths, probabilities in parts per million.

pub mod body;
pub mod entity;
pub mod entity_config;
pub mod genome;
pub mod grid_config;
pub mod input_neuron;
pub mod kill_zone;
pub mod life_sim;
pub mod network;
pub mod neural_network;
pub mod neural_network_config;
pub mod output_neuron;
mod random;
pub mod render_config;
pub mod rendering;
pub mod scenario;
pub mod selection;
pub mod services;
pub mod settings;
pub mod simulation_config;
