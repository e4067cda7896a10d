use vstd::prelude::*;

verus! {

/// What an output neuron of a threshold network stands for.
#[derive(Clone, Copy, Debug, PartialEq, Eq, Structural)]
pub enum OutputNeuronKind {
    MoveRandom,
    MoveUp,
    MoveDown,
    MoveLeft,
    MoveRight,
    Stay,
}

impl OutputNeuronKind {
    /// Number of output kinds.
    pub fn count() -> (count: usize)
        ensures
            count == 6,
    {
        6
    }

    /// The kind's name.
    pub fn name(&self) -> (name: &'static str)
        ensures
            *self == OutputNeuronKind::MoveRandom ==> name@ == "MoveRandom"@,
            *self == OutputNeuronKind::MoveUp ==> name@ == "MoveUp"@,
            *self == OutputNeuronKind::MoveDown ==> name@ == "MoveDown"@,
            *self == OutputNeuronKind::MoveLeft ==> name@ == "MoveLeft"@,
            *self == OutputNeuronKind::MoveRight ==> name@ == "MoveRight"@,
            *self == OutputNeuronKind::Stay ==> name@ == "Stay"@,
    {
        match self {
            OutputNeuronKind::MoveRandom => "MoveRandom",
            OutputNeuronKind::MoveUp => "MoveUp",
            OutputNeuronKind::MoveDown => "MoveDown",
            OutputNeuronKind::MoveLeft => "MoveLeft",
            OutputNeuronKind::MoveRight => "MoveRight",
            OutputNeuronKind::Stay => "Stay",
        }
    }
}

/// An output neuron of a threshold network: it fires on a signal above its
/// threshold. Signal and threshold are in millionths.
#[derive(Clone, Copy, Debug, PartialEq, Eq, Structural)]
pub struct OutputNeuron {
    pub kind: OutputNeuronKind,
    pub fire_threshold: i64,
}

impl OutputNeuron {
    pub fn new(kind: OutputNeuronKind, fire_threshold: i64) -> (neuron: Self)
        ensures
            neuron == (OutputNeuron { kind, fire_threshold }),
    {
        Self { kind, fire_threshold }
    }

    /// Whether the neuron fires on a signal.
    pub fn update(&self, signal: i64) -> (fires: bool)
        ensures
            fires == (signal > self.fire_threshold),
    {
        signal > self.fire_threshold
    }

    pub fn kind(&self) -> (kind: OutputNeuronKind)
        ensures
            kind == self.kind,
    {
        self.kind
    }
}

} // verus!
