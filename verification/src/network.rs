use vstd::prelude::*;

use crate::genome::mutation::RATE_ONE;
use crate::input_neuron::{spread, InputNeuron, InputNeuronKind};
use crate::output_neuron::{OutputNeuron, OutputNeuronKind};

verus! {

/// A threshold network: input neurons wired straight to output neurons,
/// each of which fires on a signal above its threshold. A connection names
/// an input and an output by their positions in the layers.
#[derive(Debug)]
pub struct NeuralNetwork {
    pub input_layer: Vec<InputNeuron>,
    pub output_layer: Vec<OutputNeuron>,
    pub connections: Vec<(usize, usize)>,
}

/// The actions that one input fires through the first `upto` connections,
/// in the order of the connections.
pub open spec fn fired_by(
    connections: Seq<(usize, usize)>,
    outputs: Seq<OutputNeuron>,
    input: int,
    signal: i64,
    upto: int,
) -> Seq<OutputNeuronKind>
    decreases upto,
{
    if upto <= 0 {
        Seq::empty()
    } else {
        let earlier = fired_by(connections, outputs, input, signal, upto - 1);
        let connection = connections[upto - 1];
        if connection.0 == input && signal > outputs[connection.1 as int].fire_threshold {
            earlier.push(outputs[connection.1 as int].kind)
        } else {
            earlier
        }
    }
}

/// The actions that the first `upto` inputs fire, input by input.
pub open spec fn fired(
    connections: Seq<(usize, usize)>,
    outputs: Seq<OutputNeuron>,
    signals: Seq<i64>,
    upto: int,
) -> Seq<OutputNeuronKind>
    decreases upto,
{
    if upto <= 0 {
        Seq::empty()
    } else {
        fired(connections, outputs, signals, upto - 1) + fired_by(
            connections,
            outputs,
            upto - 1,
            signals[upto - 1],
            connections.len() as int,
        )
    }
}

/// A signal that an input neuron may give at a time.
pub open spec fn may_signal(neuron: InputNeuron, generation_time: u32, signal: i64) -> bool {
    match neuron.kind {
        InputNeuronKind::Time => signal == spread(generation_time, neuron.signal_range),
        InputNeuronKind::Random => exists|unit: u32|
            unit < RATE_ONE && signal == #[trigger] spread(unit, neuron.signal_range),
    }
}

impl NeuralNetwork {
    /// Every connection ends at an output neuron, and no connection occurs
    /// twice.
    pub open spec fn well_formed(self) -> bool {
        &&& forall|k: int|
            0 <= k < self.connections@.len() ==> (#[trigger] self.connections@[k]).1
                < self.output_layer@.len()
        &&& self.connections@.no_duplicates()
    }

    /// Tests whether the network is well formed.
    pub fn is_well_formed(&self) -> (answer: bool)
        ensures
            answer == self.well_formed(),
    {
        let mut k: usize = 0;
        while k < self.connections.len()
            invariant
                k <= self.connections.len(),
                forall|j: int|
                    0 <= j < k ==> (#[trigger] self.connections@[j]).1 < self.output_layer@.len(),
                forall|i: int, j: int|
                    0 <= i < j < k ==> self.connections@[i] != self.connections@[j],
            decreases self.connections.len() - k,
        {
            let connection = self.connections[k];
            if connection.1 >= self.output_layer.len() {
                return false;
            }
            let mut i: usize = 0;
            while i < k
                invariant
                    i <= k < self.connections.len(),
                    connection == self.connections@[k as int],
                    forall|j: int| 0 <= j < i ==> self.connections@[j] != connection,
                decreases k - i,
            {
                let earlier = self.connections[i];
                if earlier.0 == connection.0 && earlier.1 == connection.1 {
                    assert(self.connections@[i as int] == self.connections@[k as int]);
                    return false;
                }
                i += 1;
            }
            k += 1;
        }
        true
    }

    /// A network of the two input kinds and the six output kinds, wired as
    /// the connections say.
    pub fn new(connections: Vec<(usize, usize)>, neuron_signal_range: u32, neuron_fire_threshold: i64) -> (network:
        Self)
        ensures
            network.connections == connections,
            network.input_layer@ == seq![
                InputNeuron { kind: InputNeuronKind::Random, signal_range: neuron_signal_range },
                InputNeuron { kind: InputNeuronKind::Time, signal_range: neuron_signal_range },
            ],
            network.output_layer@ == seq![
                OutputNeuron { kind: OutputNeuronKind::MoveRandom, fire_threshold: neuron_fire_threshold },
                OutputNeuron { kind: OutputNeuronKind::MoveUp, fire_threshold: neuron_fire_threshold },
                OutputNeuron { kind: OutputNeuronKind::MoveDown, fire_threshold: neuron_fire_threshold },
                OutputNeuron { kind: OutputNeuronKind::MoveLeft, fire_threshold: neuron_fire_threshold },
                OutputNeuron { kind: OutputNeuronKind::MoveRight, fire_threshold: neuron_fire_threshold },
                OutputNeuron { kind: OutputNeuronKind::Stay, fire_threshold: neuron_fire_threshold },
            ],
    {
        let mut input_layer: Vec<InputNeuron> = Vec::new();
        input_layer.push(InputNeuron::new(InputNeuronKind::Random, neuron_signal_range));
        input_layer.push(InputNeuron::new(InputNeuronKind::Time, neuron_signal_range));
        let mut output_layer: Vec<OutputNeuron> = Vec::new();
        output_layer.push(OutputNeuron::new(OutputNeuronKind::MoveRandom, neuron_fire_threshold));
        output_layer.push(OutputNeuron::new(OutputNeuronKind::MoveUp, neuron_fire_threshold));
        output_layer.push(OutputNeuron::new(OutputNeuronKind::MoveDown, neuron_fire_threshold));
        output_layer.push(OutputNeuron::new(OutputNeuronKind::MoveLeft, neuron_fire_threshold));
        output_layer.push(OutputNeuron::new(OutputNeuronKind::MoveRight, neuron_fire_threshold));
        output_layer.push(OutputNeuron::new(OutputNeuronKind::Stay, neuron_fire_threshold));
        let network = Self { input_layer, output_layer, connections };
        assert(network.input_layer@ =~= seq![
            InputNeuron { kind: InputNeuronKind::Random, signal_range: neuron_signal_range },
            InputNeuron { kind: InputNeuronKind::Time, signal_range: neuron_signal_range },
        ]);
        assert(network.output_layer@ =~= seq![
            OutputNeuron { kind: OutputNeuronKind::MoveRandom, fire_threshold: neuron_fire_threshold },
            OutputNeuron { kind: OutputNeuronKind::MoveUp, fire_threshold: neuron_fire_threshold },
            OutputNeuron { kind: OutputNeuronKind::MoveDown, fire_threshold: neuron_fire_threshold },
            OutputNeuron { kind: OutputNeuronKind::MoveLeft, fire_threshold: neuron_fire_threshold },
            OutputNeuron { kind: OutputNeuronKind::MoveRight, fire_threshold: neuron_fire_threshold },
            OutputNeuron { kind: OutputNeuronKind::Stay, fire_threshold: neuron_fire_threshold },
        ]);
        network
    }

    /// The actions that fire on given input signals: input by input, each
    /// output behind a connection from the input whose threshold the
    /// input's signal exceeds.
    pub fn fire(&self, signals: &Vec<i64>) -> (decisions: Vec<OutputNeuronKind>)
        requires
            self.well_formed(),
            signals@.len() == self.input_layer@.len(),
        ensures
            decisions@ == fired(
                self.connections@,
                self.output_layer@,
                signals@,
                signals@.len() as int,
            ),
    {
        let mut decisions: Vec<OutputNeuronKind> = Vec::new();
        let mut i: usize = 0;
        while i < signals.len()
            invariant
                self.well_formed(),
                i <= signals.len(),
                decisions@ == fired(self.connections@, self.output_layer@, signals@, i as int),
            decreases signals.len() - i,
        {
            let signal = signals[i];
            let ghost before = decisions@;
            let mut k: usize = 0;
            while k < self.connections.len()
                invariant
                    self.well_formed(),
                    k <= self.connections.len(),
                    decisions@ == before + fired_by(
                        self.connections@,
                        self.output_layer@,
                        i as int,
                        signal,
                        k as int,
                    ),
                decreases self.connections.len() - k,
            {
                let connection = self.connections[k];
                assert(self.connections@[k as int].1 < self.output_layer@.len());
                if connection.0 == i && self.output_layer[connection.1].update(signal) {
                    decisions.push(self.output_layer[connection.1].kind());
                    assert(decisions@ =~= before + fired_by(
                        self.connections@,
                        self.output_layer@,
                        i as int,
                        signal,
                        k + 1,
                    ));
                }
                k += 1;
            }
            i += 1;
        }
        decisions
    }

    /// The actions that fire at a time of the generation, a share of one
    /// in millionths.
    pub fn decide(&self, generation_time: u32) -> (decisions: Vec<OutputNeuronKind>)
        requires
            self.well_formed(),
        ensures
            exists|signals: Seq<i64>|
                {
                    &&& signals.len() == self.input_layer@.len()
                    &&& forall|i: int|
                        0 <= i < signals.len() ==> may_signal(
                            self.input_layer@[i],
                            generation_time,
                            #[trigger] signals[i],
                        )
                    &&& decisions@ == #[trigger] fired(
                        self.connections@,
                        self.output_layer@,
                        signals,
                        signals.len() as int,
                    )
                },
    {
        let mut signals: Vec<i64> = Vec::new();
        let mut i: usize = 0;
        while i < self.input_layer.len()
            invariant
                i <= self.input_layer.len(),
                signals@.len() == i,
                forall|j: int|
                    0 <= j < i ==> may_signal(
                        self.input_layer@[j],
                        generation_time,
                        #[trigger] signals@[j],
                    ),
            decreases self.input_layer.len() - i,
        {
            let signal = self.input_layer[i].update(generation_time);
            signals.push(signal);
            i += 1;
        }
        self.fire(&signals)
    }
}

} // verus!
