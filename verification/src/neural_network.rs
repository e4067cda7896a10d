//! The decoded phenotype: neuron kinds, connections and the brain itself.

pub mod brain;
pub mod connection;
pub mod hidden_neuron;
pub mod input_neuron;
pub mod input_neuron_kind;
pub mod neuron_kind;
pub mod output_neuron;
pub mod output_neuron_kind;
