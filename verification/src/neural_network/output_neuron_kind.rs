use vstd::prelude::*;

verus! {

/// What an output neuron of a layered network stands for.
#[derive(Clone, Copy, Debug, PartialEq, Eq, Structural)]
pub enum OutputNeuronKind {
    MoveRandom,
    MoveUp,
    MoveDown,
    MoveLeft,
    MoveRight,
    Stay,
}

impl OutputNeuronKind {
    /// The kind's name.
    pub fn name(&self) -> (name: &'static str)
        ensures
            *self == OutputNeuronKind::MoveRandom ==> name@ == "MoveRandom"@,
            *self == OutputNeuronKind::MoveUp ==> name@ == "MoveUp"@,
            *self == OutputNeuronKind::MoveDown ==> name@ == "MoveDown"@,
            *self == OutputNeuronKind::MoveLeft ==> name@ == "MoveLeft"@,
            *self == OutputNeuronKind::MoveRight ==> name@ == "MoveRight"@,
            *self == OutputNeuronKind::Stay ==> name@ == "Stay"@,
    {
        match self {
            OutputNeuronKind::MoveRandom => "MoveRandom",
            OutputNeuronKind::MoveUp => "MoveUp",
            OutputNeuronKind::MoveDown => "MoveDown",
            OutputNeuronKind::MoveLeft => "MoveLeft",
            OutputNeuronKind::MoveRight => "MoveRight",
            OutputNeuronKind::Stay => "Stay",
        }
    }
}

} // verus!
