use vstd::prelude::*;

use super::hidden_neuron::HiddenNeuron;
use super::input_neuron::InputNeuron;
use super::output_neuron::OutputNeuron;

verus! {

/// A decoded neuron, tagged by its role in the graph.
#[derive(Clone, Copy, Debug, PartialEq, Eq, Structural)]
pub enum NeuronKind {
    Input(InputNeuron),
    Hidden(HiddenNeuron),
    Output(OutputNeuron),
}

} // verus!
