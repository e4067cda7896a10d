use vstd::prelude::*;

verus! {

/// Number of output neuron kinds.
pub const OUTPUT_NEURON_COUNT: usize = 6;

/// Action that an output neuron stands for.
#[derive(Clone, Copy, Debug, PartialEq, Eq, Structural)]
pub enum OutputNeuron {
    MoveRandom,
    MoveUp,
    MoveDown,
    MoveLeft,
    MoveRight,
    Stay,
}

impl OutputNeuron {
    /// Position of the kind in the enumeration.
    pub open spec fn index(self) -> int {
        match self {
            OutputNeuron::MoveRandom => 0,
            OutputNeuron::MoveUp => 1,
            OutputNeuron::MoveDown => 2,
            OutputNeuron::MoveLeft => 3,
            OutputNeuron::MoveRight => 4,
            OutputNeuron::Stay => 5,
        }
    }

    /// The kind selected by a discriminant, which is reduced modulo the
    /// number of kinds.
    pub open spec fn of_discriminant(discriminant: int) -> OutputNeuron {
        let reduced = discriminant % 6;
        if reduced == 0 {
            OutputNeuron::MoveRandom
        } else if reduced == 1 {
            OutputNeuron::MoveUp
        } else if reduced == 2 {
            OutputNeuron::MoveDown
        } else if reduced == 3 {
            OutputNeuron::MoveLeft
        } else if reduced == 4 {
            OutputNeuron::MoveRight
        } else {
            OutputNeuron::Stay
        }
    }

    /// Every discriminant selects a kind: it is taken modulo the number of
    /// kinds.
    pub fn from_discriminant(discriminant: usize) -> (kind: Self)
        ensures
            kind == Self::of_discriminant(discriminant as int),
            kind.index() == discriminant % OUTPUT_NEURON_COUNT,
    {
        let reduced: usize = discriminant % OUTPUT_NEURON_COUNT;
        if reduced == 0 {
            OutputNeuron::MoveRandom
        } else if reduced == 1 {
            OutputNeuron::MoveUp
        } else if reduced == 2 {
            OutputNeuron::MoveDown
        } else if reduced == 3 {
            OutputNeuron::MoveLeft
        } else if reduced == 4 {
            OutputNeuron::MoveRight
        } else {
            OutputNeuron::Stay
        }
    }

    pub fn discriminant(&self) -> (discriminant: usize)
        ensures
            discriminant == self.index(),
            discriminant < OUTPUT_NEURON_COUNT,
            Self::of_discriminant(discriminant as int) == *self,
    {
        match self {
            OutputNeuron::MoveRandom => 0,
            OutputNeuron::MoveUp => 1,
            OutputNeuron::MoveDown => 2,
            OutputNeuron::MoveLeft => 3,
            OutputNeuron::MoveRight => 4,
            OutputNeuron::Stay => 5,
        }
    }

    /// The kind's name.
    pub fn name(&self) -> (name: &'static str)
        ensures
            *self == OutputNeuron::MoveRandom ==> name@ == "MoveRandom"@,
            *self == OutputNeuron::MoveUp ==> name@ == "MoveUp"@,
            *self == OutputNeuron::MoveDown ==> name@ == "MoveDown"@,
            *self == OutputNeuron::MoveLeft ==> name@ == "MoveLeft"@,
            *self == OutputNeuron::MoveRight ==> name@ == "MoveRight"@,
            *self == OutputNeuron::Stay ==> name@ == "Stay"@,
    {
        match self {
            OutputNeuron::MoveRandom => "MoveRandom",
            OutputNeuron::MoveUp => "MoveUp",
            OutputNeuron::MoveDown => "MoveDown",
            OutputNeuron::MoveLeft => "MoveLeft",
            OutputNeuron::MoveRight => "MoveRight",
            OutputNeuron::Stay => "Stay",
        }
    }
}

} // verus!
