use vstd::prelude::*;

verus! {

/// Number of hidden neuron kinds.
pub const HIDDEN_NEURON_COUNT: usize = 5;

/// Activation applied by a hidden neuron.
#[derive(Clone, Copy, Debug, PartialEq, Eq, Structural)]
pub enum HiddenNeuron {
    Identity,
    Gaussian,
    ReLU,
    Sigmoid,
    Tanh,
}

impl HiddenNeuron {
    /// Position of the kind in the enumeration.
    pub open spec fn index(self) -> int {
        match self {
            HiddenNeuron::Identity => 0,
            HiddenNeuron::Gaussian => 1,
            HiddenNeuron::ReLU => 2,
            HiddenNeuron::Sigmoid => 3,
            HiddenNeuron::Tanh => 4,
        }
    }

    /// The kind selected by a discriminant, which is reduced modulo the
    /// number of kinds.
    pub open spec fn of_discriminant(discriminant: int) -> HiddenNeuron {
        let reduced = discriminant % 5;
        if reduced == 0 {
            HiddenNeuron::Identity
        } else if reduced == 1 {
            HiddenNeuron::Gaussian
        } else if reduced == 2 {
            HiddenNeuron::ReLU
        } else if reduced == 3 {
            HiddenNeuron::Sigmoid
        } else {
            HiddenNeuron::Tanh
        }
    }

    /// Every discriminant selects a kind: it is taken modulo the number of
    /// kinds.
    pub fn from_discriminant(discriminant: usize) -> (kind: Self)
        ensures
            kind == Self::of_discriminant(discriminant as int),
            kind.index() == discriminant % HIDDEN_NEURON_COUNT,
    {
        let reduced: usize = discriminant % HIDDEN_NEURON_COUNT;
        if reduced == 0 {
            HiddenNeuron::Identity
        } else if reduced == 1 {
            HiddenNeuron::Gaussian
        } else if reduced == 2 {
            HiddenNeuron::ReLU
        } else if reduced == 3 {
            HiddenNeuron::Sigmoid
        } else {
            HiddenNeuron::Tanh
        }
    }

    pub fn discriminant(&self) -> (discriminant: usize)
        ensures
            discriminant == self.index(),
            discriminant < HIDDEN_NEURON_COUNT,
            Self::of_discriminant(discriminant as int) == *self,
    {
        match self {
            HiddenNeuron::Identity => 0,
            HiddenNeuron::Gaussian => 1,
            HiddenNeuron::ReLU => 2,
            HiddenNeuron::Sigmoid => 3,
            HiddenNeuron::Tanh => 4,
        }
    }

    /// The kind's name.
    pub fn name(&self) -> (name: &'static str)
        ensures
            *self == HiddenNeuron::Identity ==> name@ == "Identity"@,
            *self == HiddenNeuron::Gaussian ==> name@ == "Gaussian"@,
            *self == HiddenNeuron::ReLU ==> name@ == "ReLU"@,
            *self == HiddenNeuron::Sigmoid ==> name@ == "Sigmoid"@,
            *self == HiddenNeuron::Tanh ==> name@ == "Tanh"@,
    {
        match self {
            HiddenNeuron::Identity => "Identity",
            HiddenNeuron::Gaussian => "Gaussian",
            HiddenNeuron::ReLU => "ReLU",
            HiddenNeuron::Sigmoid => "Sigmoid",
            HiddenNeuron::Tanh => "Tanh",
        }
    }
}

} // verus!
