use vstd::prelude::*;

verus! {

/// What an input neuron of a layered network senses.
#[derive(Clone, Copy, Debug, PartialEq, Eq, Structural)]
pub enum InputNeuronKind {
    Random,
    Time,
    DangerDistX,
    DangerDistY,
}

impl InputNeuronKind {
    /// The kind's name.
    pub fn name(&self) -> (name: &'static str)
        ensures
            *self == InputNeuronKind::Random ==> name@ == "Random"@,
            *self == InputNeuronKind::Time ==> name@ == "Time"@,
            *self == InputNeuronKind::DangerDistX ==> name@ == "DangerDistX"@,
            *self == InputNeuronKind::DangerDistY ==> name@ == "DangerDistY"@,
    {
        match self {
            InputNeuronKind::Random => "Random",
            InputNeuronKind::Time => "Time",
            InputNeuronKind::DangerDistX => "DangerDistX",
            InputNeuronKind::DangerDistY => "DangerDistY",
        }
    }
}

} // verus!
