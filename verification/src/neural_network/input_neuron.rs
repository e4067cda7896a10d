use vstd::prelude::*;

verus! {

/// Number of input neuron kinds.
pub const INPUT_NEURON_COUNT: usize = 9;

/// Environmental scalar that an input neuron senses.
#[derive(Clone, Copy, Debug, PartialEq, Eq, Structural)]
pub enum InputNeuron {
    Random,
    PreviousMoveDirSin,
    PreviousMoveDirCos,
    Time,
    DangerDist,
    DangerDirSin,
    DangerDirCos,
    FoodDirSin,
    FoodDirCos,
}

impl InputNeuron {
    /// Position of the kind in the enumeration.
    pub open spec fn index(self) -> int {
        match self {
            InputNeuron::Random => 0,
            InputNeuron::PreviousMoveDirSin => 1,
            InputNeuron::PreviousMoveDirCos => 2,
            InputNeuron::Time => 3,
            InputNeuron::DangerDist => 4,
            InputNeuron::DangerDirSin => 5,
            InputNeuron::DangerDirCos => 6,
            InputNeuron::FoodDirSin => 7,
            InputNeuron::FoodDirCos => 8,
        }
    }

    /// The kind selected by a discriminant, which is reduced modulo the
    /// number of kinds.
    pub open spec fn of_discriminant(discriminant: int) -> InputNeuron {
        let reduced = discriminant % 9;
        if reduced == 0 {
            InputNeuron::Random
        } else if reduced == 1 {
            InputNeuron::PreviousMoveDirSin
        } else if reduced == 2 {
            InputNeuron::PreviousMoveDirCos
        } else if reduced == 3 {
            InputNeuron::Time
        } else if reduced == 4 {
            InputNeuron::DangerDist
        } else if reduced == 5 {
            InputNeuron::DangerDirSin
        } else if reduced == 6 {
            InputNeuron::DangerDirCos
        } else if reduced == 7 {
            InputNeuron::FoodDirSin
        } else {
            InputNeuron::FoodDirCos
        }
    }

    /// Every discriminant selects a kind: it is taken modulo the number of
    /// kinds.
    pub fn from_discriminant(discriminant: usize) -> (kind: Self)
        ensures
            kind == Self::of_discriminant(discriminant as int),
            kind.index() == discriminant % INPUT_NEURON_COUNT,
    {
        let reduced: usize = discriminant % INPUT_NEURON_COUNT;
        if reduced == 0 {
            InputNeuron::Random
        } else if reduced == 1 {
            InputNeuron::PreviousMoveDirSin
        } else if reduced == 2 {
            InputNeuron::PreviousMoveDirCos
        } else if reduced == 3 {
            InputNeuron::Time
        } else if reduced == 4 {
            InputNeuron::DangerDist
        } else if reduced == 5 {
            InputNeuron::DangerDirSin
        } else if reduced == 6 {
            InputNeuron::DangerDirCos
        } else if reduced == 7 {
            InputNeuron::FoodDirSin
        } else {
            InputNeuron::FoodDirCos
        }
    }

    pub fn discriminant(&self) -> (discriminant: usize)
        ensures
            discriminant == self.index(),
            discriminant < INPUT_NEURON_COUNT,
            Self::of_discriminant(discriminant as int) == *self,
    {
        match self {
            InputNeuron::Random => 0,
            InputNeuron::PreviousMoveDirSin => 1,
            InputNeuron::PreviousMoveDirCos => 2,
            InputNeuron::Time => 3,
            InputNeuron::DangerDist => 4,
            InputNeuron::DangerDirSin => 5,
            InputNeuron::DangerDirCos => 6,
            InputNeuron::FoodDirSin => 7,
            InputNeuron::FoodDirCos => 8,
        }
    }

    /// The kind's name.
    pub fn name(&self) -> (name: &'static str)
        ensures
            *self == InputNeuron::Random ==> name@ == "Random"@,
            *self == InputNeuron::PreviousMoveDirSin ==> name@ == "PreviousMoveDirSin"@,
            *self == InputNeuron::PreviousMoveDirCos ==> name@ == "PreviousMoveDirCos"@,
            *self == InputNeuron::Time ==> name@ == "Time"@,
            *self == InputNeuron::DangerDist ==> name@ == "DangerDist"@,
            *self == InputNeuron::DangerDirSin ==> name@ == "DangerDirSin"@,
            *self == InputNeuron::DangerDirCos ==> name@ == "DangerDirCos"@,
            *self == InputNeuron::FoodDirSin ==> name@ == "FoodDirSin"@,
            *self == InputNeuron::FoodDirCos ==> name@ == "FoodDirCos"@,
    {
        match self {
            InputNeuron::Random => "Random",
            InputNeuron::PreviousMoveDirSin => "PreviousMoveDirSin",
            InputNeuron::PreviousMoveDirCos => "PreviousMoveDirCos",
            InputNeuron::Time => "Time",
            InputNeuron::DangerDist => "DangerDist",
            InputNeuron::DangerDirSin => "DangerDirSin",
            InputNeuron::DangerDirCos => "DangerDirCos",
            InputNeuron::FoodDirSin => "FoodDirSin",
            InputNeuron::FoodDirCos => "FoodDirCos",
        }
    }
}

} // verus!
