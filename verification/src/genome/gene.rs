use vstd::prelude::*;

use crate::neural_network::hidden_neuron::HiddenNeuron;
use crate::neural_network::input_neuron::InputNeuron;
use crate::neural_network::neuron_kind::NeuronKind;
use crate::neural_network::output_neuron::OutputNeuron;

verus! {

/// One in millionths: the largest magnitude that mutation leaves a weight.
pub const WEIGHT_ONE: i32 = 1_000_000;

/// An edge descriptor. It addresses its two neurons by role, discriminant
/// and instance, never by position, and every value of every field is
/// meaningful: discriminants are reduced modulo the number of kinds when the
/// gene is decoded. The weight is in millionths.
#[derive(Clone, Copy, Debug, PartialEq, Eq, Structural)]
pub struct Gene {
    pub source_is_hidden: bool,
    pub source_discriminant: u16,
    pub source_instance: u16,
    pub target_is_output: bool,
    pub target_discriminant: u16,
    pub target_instance: u16,
    pub weight: i32,
}

/// The part that a neuron plays in the graph.
#[derive(Clone, Copy, Debug, PartialEq, Eq, Structural)]
pub enum Role {
    Input,
    Hidden,
    Output,
}

/// What a gene says of one of its two neurons. Two references name the same
/// neuron exactly when they are equal.
pub struct NeuronRef {
    pub role: Role,
    pub discriminant: u16,
    pub instance: u16,
}

impl NeuronRef {
    /// The neuron that the reference allocates.
    pub open spec fn kind(self) -> NeuronKind {
        match self.role {
            Role::Input => NeuronKind::Input(InputNeuron::of_discriminant(self.discriminant as int)),
            Role::Hidden => NeuronKind::Hidden(
                HiddenNeuron::of_discriminant(self.discriminant as int),
            ),
            Role::Output => NeuronKind::Output(
                OutputNeuron::of_discriminant(self.discriminant as int),
            ),
        }
    }
}

impl Gene {
    pub open spec fn source_ref(self) -> NeuronRef {
        NeuronRef {
            role: if self.source_is_hidden {
                Role::Hidden
            } else {
                Role::Input
            },
            discriminant: self.source_discriminant,
            instance: self.source_instance,
        }
    }

    pub open spec fn target_ref(self) -> NeuronRef {
        NeuronRef {
            role: if self.target_is_output {
                Role::Output
            } else {
                Role::Hidden
            },
            discriminant: self.target_discriminant,
            instance: self.target_instance,
        }
    }
}

/// A weight after a perturbation: the sum, clamped to the unit interval.
pub open spec fn perturbed(weight: i32, delta: int) -> i32 {
    let sum = weight + delta;
    if sum < -(WEIGHT_ONE as int) {
        (-(WEIGHT_ONE as int)) as i32
    } else if sum > WEIGHT_ONE {
        WEIGHT_ONE
    } else {
        sum as i32
    }
}

/// Whether a weight lies in the unit interval.
pub open spec fn in_unit_interval(weight: i32) -> bool {
    -(WEIGHT_ONE as int) <= weight <= WEIGHT_ONE
}

/// Adds a delta to a weight and clamps the sum to the unit interval.
pub fn perturb(weight: i32, delta: i64) -> (result: i32)
    ensures
        result == perturbed(weight, delta as int),
        in_unit_interval(result),
{
    let sum: i128 = weight as i128 + delta as i128;
    if sum < -(WEIGHT_ONE as i128) {
        -WEIGHT_ONE
    } else if sum > WEIGHT_ONE as i128 {
        WEIGHT_ONE
    } else {
        sum as i32
    }
}

} // verus!
