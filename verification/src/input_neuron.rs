use vstd::prelude::*;

use crate::genome::mutation::RATE_ONE;
use crate::random::random_below;

verus! {

/// What an input neuron of a threshold network senses.
#[derive(Clone, Copy, Debug, PartialEq, Eq, Structural)]
pub enum InputNeuronKind {
    Random,
    Time,
}

impl InputNeuronKind {
    /// Number of input kinds that a threshold network is wired for.
    pub fn count() -> (count: usize)
        ensures
            count == 1,
    {
        1
    }

    /// The kind's name.
    pub fn name(&self) -> (name: &'static str)
        ensures
            *self == InputNeuronKind::Random ==> name@ == "Random"@,
            *self == InputNeuronKind::Time ==> name@ == "Time"@,
    {
        match self {
            InputNeuronKind::Random => "Random",
            InputNeuronKind::Time => "Time",
        }
    }
}

/// An input neuron of a threshold network. It spreads what it senses, a
/// share of one in millionths, over `-signal_range..=signal_range`.
#[derive(Clone, Copy, Debug, PartialEq, Eq, Structural)]
pub struct InputNeuron {
    pub kind: InputNeuronKind,
    /// Half the width of the signal's range, in millionths.
    pub signal_range: u32,
}

/// A share of one, spread over `-range..=range`; the product is rounded
/// down to a millionth.
pub open spec fn spread(unit: u32, range: u32) -> int {
    unit * (range * 2) / (RATE_ONE as int) - range
}

impl InputNeuron {
    pub fn new(kind: InputNeuronKind, signal_range: u32) -> (neuron: Self)
        ensures
            neuron == (InputNeuron { kind, signal_range }),
    {
        Self { kind, signal_range }
    }

    /// The neuron's signal at a time of the generation, a share of one in
    /// millionths. A neuron of kind `Random` spreads a fresh draw from the
    /// unit interval instead.
    pub fn update(&self, generation_time: u32) -> (signal: i64)
        ensures
            self.kind == InputNeuronKind::Time ==> signal == spread(
                generation_time,
                self.signal_range,
            ),
            self.kind == InputNeuronKind::Random ==> exists|unit: u32|
                unit < RATE_ONE && signal == #[trigger] spread(unit, self.signal_range),
    {
        match self.kind {
            InputNeuronKind::Random => {
                let unit = random_below(RATE_ONE as u64) as u32;
                let signal = self.unit_to_range(unit);
                assert(signal == spread(unit, self.signal_range));
                signal
            },
            InputNeuronKind::Time => self.unit_to_range(generation_time),
        }
    }

    pub fn kind(&self) -> (kind: InputNeuronKind)
        ensures
            kind == self.kind,
    {
        self.kind
    }

    /// Spreads a share of one over the neuron's range.
    pub fn unit_to_range(&self, unit: u32) -> (signal: i64)
        ensures
            signal == spread(unit, self.signal_range),
    {
        assert(unit * (self.signal_range * 2) <= 0xffff_ffff * (0xffff_ffff * 2))
            by (nonlinear_arith)
            requires
                0 <= unit <= 0xffff_ffff,
                0 <= self.signal_range <= 0xffff_ffff,
        ;
        let product: u128 = unit as u128 * (self.signal_range as u128 * 2);
        (product / RATE_ONE as u128) as i64 - self.signal_range as i64
    }
}

} // verus!
