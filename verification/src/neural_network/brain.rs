use std::collections::HashMap;
use vstd::prelude::*;

use super::connection::Connection;
use super::hidden_neuron::{HiddenNeuron, HIDDEN_NEURON_COUNT};
use super::input_neuron::InputNeuron;
use super::neuron_kind::NeuronKind;
use super::output_neuron::OutputNeuron;
use crate::genome::gene::{in_unit_interval, perturb, perturbed, Gene, NeuronRef, Role, WEIGHT_ONE};
use crate::genome::mutation::random_delta;
use crate::random::random_below;

verus! {

/// The neuron references of a genome in genome order: for each gene its
/// source, then its target.
pub open spec fn references(genes: Seq<Gene>) -> Seq<NeuronRef>
    decreases genes.len(),
{
    if genes.len() == 0 {
        Seq::empty()
    } else {
        references(genes.drop_last()).push(genes.last().source_ref()).push(
            genes.last().target_ref(),
        )
    }
}

/// A neuron list after one more reference: a reference that is already
/// there allocates nothing, a new one is appended.
pub open spec fn allocate(allocated: Seq<NeuronRef>, reference: NeuronRef) -> Seq<NeuronRef> {
    if allocated.contains(reference) {
        allocated
    } else {
        allocated.push(reference)
    }
}

/// The distinct references of a sequence, each at the place of its first
/// appearance.
pub open spec fn first_occurrences(refs: Seq<NeuronRef>) -> Seq<NeuronRef>
    decreases refs.len(),
{
    if refs.len() == 0 {
        Seq::empty()
    } else {
        allocate(first_occurrences(refs.drop_last()), refs.last())
    }
}

/// The positions, in increasing order, of the references with a given role.
pub open spec fn positions_of(allocated: Seq<NeuronRef>, role: Role) -> Seq<usize>
    decreases allocated.len(),
{
    if allocated.len() == 0 {
        Seq::empty()
    } else {
        let earlier = positions_of(allocated.drop_last(), role);
        if allocated.last().role == role {
            earlier.push((allocated.len() - 1) as usize)
        } else {
            earlier
        }
    }
}

/// The mathematical content of a brain.
pub struct BrainView {
    pub neurons: Seq<NeuronKind>,
    pub connections: Seq<Connection>,
    pub genome: Seq<Gene>,
    pub previous_move: OutputNeuron,
    pub input_neurons: Seq<usize>,
    pub output_neurons: Seq<usize>,
}

impl BrainView {
    /// Every index points into the neuron list, inputs and outputs are of
    /// their kinds, and no connection ends in an input neuron.
    pub open spec fn well_formed(self) -> bool {
        &&& forall|i: int|
            0 <= i < self.connections.len() ==> {
                let c = #[trigger] self.connections[i];
                &&& c.source < self.neurons.len()
                &&& c.target < self.neurons.len()
                &&& !(self.neurons[c.target as int] is Input)
            }
        &&& forall|i: int|
            0 <= i < self.input_neurons.len() ==> {
                let n = #[trigger] self.input_neurons[i];
                n < self.neurons.len() && self.neurons[n as int] is Input
            }
        &&& forall|i: int|
            0 <= i < self.output_neurons.len() ==> {
                let n = #[trigger] self.output_neurons[i];
                n < self.neurons.len() && self.neurons[n as int] is Output
            }
    }
}

/// The brain that a genome decodes to. Its neurons are the distinct neuron
/// references of the genome in order of first appearance; gene `i` becomes
/// connection `i`, between the positions of its two references.
pub open spec fn decode(genes: Seq<Gene>) -> BrainView {
    let allocated = first_occurrences(references(genes));
    BrainView {
        neurons: allocated.map_values(|r: NeuronRef| r.kind()),
        connections: Seq::new(
            genes.len(),
            |i: int|
                Connection {
                    source: allocated.index_of(genes[i].source_ref()) as usize,
                    target: allocated.index_of(genes[i].target_ref()) as usize,
                    weight: genes[i].weight,
                },
        ),
        genome: genes,
        previous_move: OutputNeuron::MoveRight,
        input_neurons: positions_of(allocated, Role::Input),
        output_neurons: positions_of(allocated, Role::Output),
    }
}

/// Key of a neuron reference within the map of its role.
pub open spec fn instance_key(reference: NeuronRef) -> u32 {
    (reference.discriminant * 65536 + reference.instance) as u32
}

/// A map from instance keys to positions holds exactly the references of
/// one role that were allocated.
spec fn tracks(instances: Map<u32, usize>, allocated: Seq<NeuronRef>, role: Role) -> bool {
    &&& forall|key: u32| #[trigger]
        instances.contains_key(key) ==> {
            &&& instances[key] < allocated.len()
            &&& allocated[instances[key] as int].role == role
            &&& instance_key(allocated[instances[key] as int]) == key
        }
    &&& forall|i: int|
        0 <= i < allocated.len() && (#[trigger] allocated[i]).role == role
            ==> instances.contains_key(instance_key(allocated[i]))
}

proof fn lemma_first_occurrences_push(refs: Seq<NeuronRef>, reference: NeuronRef)
    ensures
        first_occurrences(refs.push(reference)) == allocate(first_occurrences(refs), reference),
{
    assert(refs.push(reference).drop_last() =~= refs);
}

proof fn lemma_positions_push(allocated: Seq<NeuronRef>, reference: NeuronRef, role: Role)
    ensures
        positions_of(allocated.push(reference), role) == if reference.role == role {
            positions_of(allocated, role).push(allocated.len() as usize)
        } else {
            positions_of(allocated, role)
        },
{
    assert(allocated.push(reference).drop_last() =~= allocated);
}

/// Every listed position lies in the list and holds a reference of the role.
proof fn lemma_positions_have_role(allocated: Seq<NeuronRef>, role: Role)
    requires
        allocated.len() <= usize::MAX,
    ensures
        positions_of(allocated, role).len() <= allocated.len(),
        forall|i: int|
            0 <= i < positions_of(allocated, role).len() ==> {
                let n = #[trigger] positions_of(allocated, role)[i];
                n < allocated.len() && allocated[n as int].role == role
            },
    decreases allocated.len(),
{
    if allocated.len() > 0 {
        lemma_positions_have_role(allocated.drop_last(), role);
    }
}

/// The state of one decoding: the neurons allocated so far and, for each
/// role, where each instance key was put.
struct Decoder {
    neurons: Vec<NeuronKind>,
    input_neurons: Vec<usize>,
    output_neurons: Vec<usize>,
    input_instances: HashMap<u32, usize>,
    hidden_instances: HashMap<u32, usize>,
    output_instances: HashMap<u32, usize>,
    allocated: Ghost<Seq<NeuronRef>>,
}

impl Decoder {
    spec fn inv(&self) -> bool {
        &&& self.allocated@.no_duplicates()
        &&& self.neurons@ == self.allocated@.map_values(|r: NeuronRef| r.kind())
        &&& self.input_neurons@ == positions_of(self.allocated@, Role::Input)
        &&& self.output_neurons@ == positions_of(self.allocated@, Role::Output)
        &&& tracks(self.input_instances@, self.allocated@, Role::Input)
        &&& tracks(self.hidden_instances@, self.allocated@, Role::Hidden)
        &&& tracks(self.output_instances@, self.allocated@, Role::Output)
    }

    fn new() -> (decoder: Self)
        ensures
            decoder.inv(),
            decoder.allocated@ == Seq::<NeuronRef>::empty(),
    {
        let decoder = Decoder {
            neurons: Vec::new(),
            input_neurons: Vec::new(),
            output_neurons: Vec::new(),
            input_instances: HashMap::new(),
            hidden_instances: HashMap::new(),
            output_instances: HashMap::new(),
            allocated: Ghost(Seq::empty()),
        };
        assert(decoder.neurons@ =~= decoder.allocated@.map_values(|r: NeuronRef| r.kind()));
        decoder
    }

    /// Position of the neuron that a reference names; the neuron is
    /// allocated if the reference is new.
    fn resolve(&mut self, role: Role, discriminant: u16, instance: u16) -> (index: usize)
        requires
            old(self).inv(),
        ensures
            final(self).inv(),
            final(self).allocated@ == allocate(
                old(self).allocated@,
                NeuronRef { role, discriminant, instance },
            ),
            index < final(self).allocated@.len(),
            final(self).allocated@[index as int] == (NeuronRef { role, discriminant, instance }),
    {
        let ghost reference = NeuronRef { role, discriminant, instance };
        let ghost before = self.allocated@;
        let key: u32 = (discriminant as u32) * 65536 + (instance as u32);
        assert(key == instance_key(reference));
        let found: Option<usize> = match role {
            Role::Input => match self.input_instances.get(&key) {
                Some(index) => Some(*index),
                None => None,
            },
            Role::Hidden => match self.hidden_instances.get(&key) {
                Some(index) => Some(*index),
                None => None,
            },
            Role::Output => match self.output_instances.get(&key) {
                Some(index) => Some(*index),
                None => None,
            },
        };
        match found {
            Some(index) => {
                proof {
                    let there = before[index as int];
                    assert(there.role == role && instance_key(there) == key);
                    assert(there == reference);
                    assert(before.contains(reference));
                }
                index
            },
            None => {
                let index = self.neurons.len();
                proof {
                    if before.contains(reference) {
                        let i = choose|i: int| 0 <= i < before.len() && before[i] == reference;
                        assert(before[i].role == role);
                    }
                    assert(!before.contains(reference));
                    lemma_positions_push(before, reference, Role::Input);
                    lemma_positions_push(before, reference, Role::Output);
                }
                match role {
                    Role::Input => {
                        self.input_instances.insert(key, index);
                        self.input_neurons.push(index);
                        self.neurons.push(
                            NeuronKind::Input(InputNeuron::from_discriminant(discriminant as usize)),
                        );
                    },
                    Role::Hidden => {
                        self.hidden_instances.insert(key, index);
                        self.neurons.push(
                            NeuronKind::Hidden(
                                HiddenNeuron::from_discriminant(discriminant as usize),
                            ),
                        );
                    },
                    Role::Output => {
                        self.output_instances.insert(key, index);
                        self.output_neurons.push(index);
                        self.neurons.push(
                            NeuronKind::Output(
                                OutputNeuron::from_discriminant(discriminant as usize),
                            ),
                        );
                    },
                }
                self.allocated = Ghost(before.push(reference));
                proof {
                    let after = self.allocated@;
                    assert(after.no_duplicates());
                    assert(self.neurons@ =~= after.map_values(|r: NeuronRef| r.kind()));
                    assert forall|i: int| 0 <= i < before.len() implies #[trigger] after[i]
                        == before[i] by {}
                }
                index
            },
        }
    }
}

/// A decoded phenotype: typed neurons, weighted connections between them,
/// and the genome that it was decoded from.
#[derive(Debug)]
pub struct Brain {
    pub neurons: Vec<NeuronKind>,
    pub connections: Vec<Connection>,
    pub genome: Vec<Gene>,
    /// The action decided last, fed back to the inputs that sense it.
    pub previous_move: OutputNeuron,
    /// Positions of the input neurons, in order of allocation.
    pub input_neurons: Vec<usize>,
    /// Positions of the output neurons, in order of allocation.
    pub output_neurons: Vec<usize>,
}

impl View for Brain {
    type V = BrainView;

    open spec fn view(&self) -> BrainView {
        BrainView {
            neurons: self.neurons@,
            connections: self.connections@,
            genome: self.genome@,
            previous_move: self.previous_move,
            input_neurons: self.input_neurons@,
            output_neurons: self.output_neurons@,
        }
    }
}

/// Allocation never moves a neuron that is already there.
proof fn lemma_allocate_keeps(allocated: Seq<NeuronRef>, reference: NeuronRef)
    ensures
        allocated.len() <= allocate(allocated, reference).len(),
        forall|i: int|
            0 <= i < allocated.len() ==> #[trigger] allocate(allocated, reference)[i]
                == allocated[i],
{
}

impl Brain {
    /// Decodes a genome. Decoding is total and depends on nothing but the
    /// genome's content.
    pub fn from_genome(genome: Vec<Gene>) -> (brain: Self)
        ensures
            brain@ == decode(genome@),
            brain@.well_formed(),
    {
        let mut decoder = Decoder::new();
        let mut connections: Vec<Connection> = Vec::new();
        let mut i: usize = 0;
        assert(genome@.take(0) =~= Seq::<Gene>::empty());
        while i < genome.len()
            invariant
                i <= genome.len(),
                decoder.inv(),
                decoder.allocated@ == first_occurrences(references(genome@.take(i as int))),
                connections@.len() == i,
                forall|j: int|
                    0 <= j < i ==> {
                        let c = #[trigger] connections@[j];
                        &&& c.weight == genome@[j].weight
                        &&& c.source < decoder.allocated@.len()
                        &&& decoder.allocated@[c.source as int] == genome@[j].source_ref()
                        &&& c.target < decoder.allocated@.len()
                        &&& decoder.allocated@[c.target as int] == genome@[j].target_ref()
                    },
            decreases genome.len() - i,
        {
            let gene = genome[i];
            let ghost before = decoder.allocated@;
            let ghost refs = references(genome@.take(i as int));
            let source_role = if gene.source_is_hidden {
                Role::Hidden
            } else {
                Role::Input
            };
            let source = decoder.resolve(
                source_role,
                gene.source_discriminant,
                gene.source_instance,
            );
            let ghost between = decoder.allocated@;
            let target_role = if gene.target_is_output {
                Role::Output
            } else {
                Role::Hidden
            };
            let target = decoder.resolve(
                target_role,
                gene.target_discriminant,
                gene.target_instance,
            );
            connections.push(Connection { source, target, weight: gene.weight });
            proof {
                let next = genome@.take(i + 1);
                assert(next.drop_last() =~= genome@.take(i as int));
                assert(next.last() == gene);
                assert(references(next) == refs.push(gene.source_ref()).push(gene.target_ref()));
                lemma_first_occurrences_push(refs, gene.source_ref());
                lemma_first_occurrences_push(refs.push(gene.source_ref()), gene.target_ref());
                lemma_allocate_keeps(before, gene.source_ref());
                lemma_allocate_keeps(between, gene.target_ref());
            }
            i += 1;
        }
        let ghost allocated = decoder.allocated@;
        assert(allocated.len() == decoder.neurons.len());
        let brain = Brain {
            genome,
            neurons: decoder.neurons,
            connections,
            previous_move: OutputNeuron::MoveRight,
            input_neurons: decoder.input_neurons,
            output_neurons: decoder.output_neurons,
        };
        proof {
            assert(genome@.take(genome@.len() as int) =~= genome@);
            let expected = decode(genome@);
            assert forall|j: int| 0 <= j < genome@.len() implies #[trigger] connections@[j]
                == expected.connections[j] by {
                let c = connections@[j];
                let s = allocated.index_of(genome@[j].source_ref());
                let t = allocated.index_of(genome@[j].target_ref());
                assert(allocated[c.source as int] == genome@[j].source_ref());
                assert(allocated[c.target as int] == genome@[j].target_ref());
                assert(s == c.source);
                assert(t == c.target);
            }
            assert(connections@ =~= expected.connections);
            lemma_positions_have_role(allocated, Role::Input);
            lemma_positions_have_role(allocated, Role::Output);
        }
        brain
    }
}

/// What the environment shows an agent in one tick, each scalar in
/// millionths.
#[derive(Clone, Copy, Debug, PartialEq, Eq, Structural)]
pub struct Senses {
    /// Progress through the generation, from zero to one.
    pub generation_time: i64,
    pub danger_dist: i64,
    pub danger_dir_sin: i64,
    pub danger_dir_cos: i64,
    pub food_dir_sin: i64,
    pub food_dir_cos: i64,
}

/// Horizontal part of a move's direction, in millionths.
pub open spec fn move_cos(action: OutputNeuron) -> int {
    match action {
        OutputNeuron::MoveLeft => -(WEIGHT_ONE as int),
        OutputNeuron::MoveRight => WEIGHT_ONE as int,
        _ => 0,
    }
}

/// Vertical part of a move's direction, in millionths.
pub open spec fn move_sin(action: OutputNeuron) -> int {
    match action {
        OutputNeuron::MoveUp => WEIGHT_ONE as int,
        OutputNeuron::MoveDown => -(WEIGHT_ONE as int),
        _ => 0,
    }
}

/// The raw signal of an input neuron of a given kind. `random` is what a
/// neuron of kind `Random` senses.
pub open spec fn sensed(
    kind: InputNeuron,
    previous_move: OutputNeuron,
    senses: Senses,
    random: i64,
) -> int {
    match kind {
        InputNeuron::Random => random as int,
        InputNeuron::PreviousMoveDirSin => move_sin(previous_move),
        InputNeuron::PreviousMoveDirCos => move_cos(previous_move),
        InputNeuron::Time => senses.generation_time as int,
        InputNeuron::DangerDist => senses.danger_dist as int,
        InputNeuron::DangerDirSin => senses.danger_dir_sin as int,
        InputNeuron::DangerDirCos => senses.danger_dir_cos as int,
        InputNeuron::FoodDirSin => senses.food_dir_sin as int,
        InputNeuron::FoodDirCos => senses.food_dir_cos as int,
    }
}

/// The raw signal of an input neuron of a given kind.
pub fn input_signal(
    kind: InputNeuron,
    previous_move: OutputNeuron,
    senses: &Senses,
    random: i64,
) -> (signal: i64)
    ensures
        signal == sensed(kind, previous_move, *senses, random),
{
    match kind {
        InputNeuron::Random => random,
        InputNeuron::PreviousMoveDirSin => match previous_move {
            OutputNeuron::MoveUp => WEIGHT_ONE as i64,
            OutputNeuron::MoveDown => -(WEIGHT_ONE as i64),
            _ => 0,
        },
        InputNeuron::PreviousMoveDirCos => match previous_move {
            OutputNeuron::MoveLeft => -(WEIGHT_ONE as i64),
            OutputNeuron::MoveRight => WEIGHT_ONE as i64,
            _ => 0,
        },
        InputNeuron::Time => senses.generation_time,
        InputNeuron::DangerDist => senses.danger_dist,
        InputNeuron::DangerDirSin => senses.danger_dir_sin,
        InputNeuron::DangerDirCos => senses.danger_dir_cos,
        InputNeuron::FoodDirSin => senses.food_dir_sin,
        InputNeuron::FoodDirCos => senses.food_dir_cos,
    }
}

/// Position, among the first `upto` outputs, of the first one whose signal
/// no other reaches.
pub open spec fn strongest(outputs: Seq<usize>, signals: Seq<i64>, upto: int) -> int
    decreases upto,
{
    if upto <= 1 {
        0
    } else {
        let best = strongest(outputs, signals, upto - 1);
        if signals[outputs[upto - 1] as int] > signals[outputs[best] as int] {
            upto - 1
        } else {
            best
        }
    }
}

/// The action that a brain decides on, given the final signal of each of
/// its neurons: that of the output neuron with the greatest signal, the
/// first of them where several are level. A brain without outputs decides
/// on `MoveRandom`.
pub open spec fn decision(brain: BrainView, signals: Seq<i64>) -> OutputNeuron {
    if brain.output_neurons.len() == 0 {
        OutputNeuron::MoveRandom
    } else {
        let best = strongest(brain.output_neurons, signals, brain.output_neurons.len() as int);
        match brain.neurons[brain.output_neurons[best] as int] {
            NeuronKind::Output(action) => action,
            _ => OutputNeuron::MoveRandom,
        }
    }
}

/// A brain after a delta was added to the weight of one connection.
pub open spec fn with_perturbed_connection(brain: BrainView, index: int, delta: int) -> BrainView {
    BrainView {
        connections: brain.connections.update(
            index,
            Connection {
                weight: perturbed(brain.connections[index].weight, delta),
                ..brain.connections[index]
            },
        ),
        ..brain
    }
}

/// A brain after a structural mutation. The neuron at `position`, if it is
/// a hidden one, gets the activation `kind`. One connection is appended,
/// from the last neuron but one to the last, unless the brain has fewer
/// than two neurons or the last is an input.
pub open spec fn restructured(
    brain: BrainView,
    position: int,
    kind: HiddenNeuron,
    weight: i32,
) -> BrainView {
    let count = brain.neurons.len() as int;
    BrainView {
        neurons: if 0 <= position < count && brain.neurons[position] is Hidden {
            brain.neurons.update(position, NeuronKind::Hidden(kind))
        } else {
            brain.neurons
        },
        connections: if count >= 2 && !(brain.neurons[count - 1] is Input) {
            brain.connections.push(
                Connection { source: (count - 2) as usize, target: (count - 1) as usize, weight },
            )
        } else {
            brain.connections
        },
        ..brain
    }
}

/// A structural mutation leaves a brain well formed.
pub proof fn restructured_brain_is_well_formed(
    brain: BrainView,
    position: int,
    kind: HiddenNeuron,
    weight: i32,
)
    requires
        brain.well_formed(),
        brain.neurons.len() <= usize::MAX,
    ensures
        restructured(brain, position, kind, weight).well_formed(),
{
    let after = restructured(brain, position, kind, weight);
    assert forall|i: int| 0 <= i < after.connections.len() implies {
        let c = #[trigger] after.connections[i];
        &&& c.source < after.neurons.len()
        &&& c.target < after.neurons.len()
        &&& !(after.neurons[c.target as int] is Input)
    } by {
        if i < brain.connections.len() {
            let c = brain.connections[i];
            assert(c.target < brain.neurons.len());
        }
    }
    assert forall|i: int| 0 <= i < after.input_neurons.len() implies {
        let n = #[trigger] after.input_neurons[i];
        n < after.neurons.len() && after.neurons[n as int] is Input
    } by {
        let n = brain.input_neurons[i];
        assert(n < brain.neurons.len() && brain.neurons[n as int] is Input);
    }
    assert forall|i: int| 0 <= i < after.output_neurons.len() implies {
        let n = #[trigger] after.output_neurons[i];
        n < after.neurons.len() && after.neurons[n as int] is Output
    } by {
        let n = brain.output_neurons[i];
        assert(n < brain.neurons.len() && brain.neurons[n as int] is Output);
    }
}

/// `strongest` is the first maximum: no output has a greater signal, and
/// every output before it has a smaller one.
pub proof fn strongest_is_first_maximum(outputs: Seq<usize>, signals: Seq<i64>, upto: int)
    requires
        1 <= upto <= outputs.len(),
    ensures
        0 <= strongest(outputs, signals, upto) < upto,
        forall|j: int|
            0 <= j < upto ==> signals[#[trigger] outputs[j] as int] <= signals[outputs[strongest(
                outputs,
                signals,
                upto,
            )] as int],
        forall|j: int|
            0 <= j < strongest(outputs, signals, upto) ==> signals[#[trigger] outputs[j] as int]
                < signals[outputs[strongest(outputs, signals, upto)] as int],
    decreases upto,
{
    if upto > 1 {
        strongest_is_first_maximum(outputs, signals, upto - 1);
    }
}

/// Where all outputs are level, the first output decides.
pub proof fn level_signals_choose_first_output(brain: BrainView, signals: Seq<i64>)
    requires
        brain.well_formed(),
        brain.output_neurons.len() > 0,
        forall|j: int|
            0 <= j < brain.output_neurons.len() ==> signals[#[trigger] brain.output_neurons[j] as int]
                == signals[brain.output_neurons[0] as int],
    ensures
        brain.neurons[brain.output_neurons[0] as int] == NeuronKind::Output(
            decision(brain, signals),
        ),
{
    strongest_is_first_maximum(
        brain.output_neurons,
        signals,
        brain.output_neurons.len() as int,
    );
    let best = strongest(brain.output_neurons, signals, brain.output_neurons.len() as int);
    if best > 0 {
        assert(signals[brain.output_neurons[0] as int] < signals[brain.output_neurons[best] as int]);
    }
}

/// What a clone of a brain holds: all that the brain holds, but no history.
pub open spec fn copy_of(brain: BrainView) -> BrainView {
    BrainView { previous_move: OutputNeuron::MoveRight, ..brain }
}

/// A clone shares nothing with its original: after a weight of the clone
/// was perturbed, the clone differs from the original in that weight alone,
/// and the original's weight is what it was.
pub proof fn clone_is_independent(original: BrainView, index: int, delta: int)
    requires
        0 <= index < original.connections.len(),
    ensures
        ({
            let changed = with_perturbed_connection(copy_of(original), index, delta);
            &&& changed.connections.len() == original.connections.len()
            &&& changed.connections[index].weight == perturbed(
                original.connections[index].weight,
                delta,
            )
            &&& forall|i: int|
                0 <= i < original.connections.len() && i != index ==> #[trigger] changed.connections[i]
                    == original.connections[i]
            &&& copy_of(original).connections[index] == original.connections[index]
            &&& changed.neurons == original.neurons
            &&& changed.genome == original.genome
        }),
{
}

/// Perturbing a weight leaves a brain well formed.
pub proof fn perturbed_brain_is_well_formed(brain: BrainView, index: int, delta: int)
    requires
        brain.well_formed(),
        0 <= index < brain.connections.len(),
    ensures
        with_perturbed_connection(brain, index, delta).well_formed(),
        in_unit_interval(with_perturbed_connection(brain, index, delta).connections[index].weight),
{
    let after = with_perturbed_connection(brain, index, delta);
    assert forall|i: int| 0 <= i < after.connections.len() implies {
        let c = #[trigger] after.connections[i];
        &&& c.source < after.neurons.len()
        &&& c.target < after.neurons.len()
        &&& !(after.neurons[c.target as int] is Input)
    } by {
        let before = brain.connections[i];
        assert(before.source < brain.neurons.len());
    }
}

/// The references of a genome are the sources and targets of its genes, in
/// turn.
pub proof fn references_lie_in_turn(genes: Seq<Gene>)
    ensures
        references(genes).len() == 2 * genes.len(),
        forall|i: int|
            0 <= i < genes.len() ==> references(genes)[2 * i] == (#[trigger] genes[i]).source_ref()
                && references(genes)[2 * i + 1] == genes[i].target_ref(),
    decreases genes.len(),
{
    if genes.len() > 0 {
        references_lie_in_turn(genes.drop_last());
        assert forall|i: int| 0 <= i < genes.len() implies references(genes)[2 * i] == (
        #[trigger] genes[i]).source_ref() && references(genes)[2 * i + 1]
            == genes[i].target_ref() by {
            if i < genes.len() - 1 {
                assert(genes.drop_last()[i] == genes[i]);
            }
        }
    }
}

/// The neurons allocated for a sequence of references are its distinct
/// references: none comes twice, none is missing, none is added.
pub proof fn first_occurrences_are_the_distinct(refs: Seq<NeuronRef>)
    ensures
        first_occurrences(refs).no_duplicates(),
        first_occurrences(refs).len() <= refs.len(),
        forall|r: NeuronRef| refs.contains(r) <==> #[trigger] first_occurrences(refs).contains(r),
    decreases refs.len(),
{
    if refs.len() > 0 {
        let shorter = refs.drop_last();
        let earlier = first_occurrences(shorter);
        let after = first_occurrences(refs);
        first_occurrences_are_the_distinct(shorter);
        assert forall|r: NeuronRef| refs.contains(r) <==> #[trigger] after.contains(r) by {
            if refs.contains(r) {
                let i = choose|i: int| 0 <= i < refs.len() && refs[i] == r;
                if i < shorter.len() {
                    assert(shorter[i] == r);
                    assert(earlier.contains(r));
                    let k = choose|k: int| 0 <= k < earlier.len() && earlier[k] == r;
                    assert(after[k] == r);
                } else {
                    if earlier.contains(r) {
                    } else {
                        assert(after[earlier.len() as int] == r);
                    }
                }
            }
            if after.contains(r) {
                let k = choose|k: int| 0 <= k < after.len() && after[k] == r;
                if k < earlier.len() {
                    assert(earlier[k] == r);
                    assert(earlier.contains(r));
                    let i = choose|i: int| 0 <= i < shorter.len() && shorter[i] == r;
                    assert(refs[i] == r);
                } else {
                    assert(refs[refs.len() - 1] == r);
                }
            }
        }
    }
}

/// Whatever a genome holds, it decodes to a well-formed brain: one
/// connection for each gene, at most two neurons for each gene, every
/// index in range, and every neuron of the kind that its gene names.
pub proof fn decode_is_well_formed(genome: Seq<Gene>)
    requires
        2 * genome.len() <= usize::MAX,
    ensures
        decode(genome).well_formed(),
        decode(genome).connections.len() == genome.len(),
        decode(genome).neurons.len() <= 2 * genome.len(),
        forall|i: int|
            0 <= i < genome.len() ==> {
                let c = #[trigger] decode(genome).connections[i];
                &&& c.weight == genome[i].weight
                &&& decode(genome).neurons[c.source as int] == genome[i].source_ref().kind()
                &&& decode(genome).neurons[c.target as int] == genome[i].target_ref().kind()
            },
{
    let refs = references(genome);
    let allocated = first_occurrences(refs);
    let brain = decode(genome);
    references_lie_in_turn(genome);
    first_occurrences_are_the_distinct(refs);
    lemma_positions_have_role(allocated, Role::Input);
    lemma_positions_have_role(allocated, Role::Output);
    assert forall|i: int| 0 <= i < genome.len() implies {
        let c = #[trigger] brain.connections[i];
        &&& c.weight == genome[i].weight
        &&& c.source < brain.neurons.len()
        &&& c.target < brain.neurons.len()
        &&& !(brain.neurons[c.target as int] is Input)
        &&& brain.neurons[c.source as int] == genome[i].source_ref().kind()
        &&& brain.neurons[c.target as int] == genome[i].target_ref().kind()
    } by {
        let source = genome[i].source_ref();
        let target = genome[i].target_ref();
        assert(refs[2 * i] == source);
        assert(refs[2 * i + 1] == target);
        assert(refs.contains(source));
        assert(refs.contains(target));
        assert(allocated.contains(source));
        assert(allocated.contains(target));
        let s = allocated.index_of(source);
        let t = allocated.index_of(target);
        assert(0 <= s < allocated.len() && allocated[s] == source);
        assert(0 <= t < allocated.len() && allocated[t] == target);
    }
}

/// Decoding the same genome gives the same neurons and the same
/// connections, in kind, order and value.
pub proof fn decode_is_deterministic(genome: Seq<Gene>, first: BrainView, second: BrainView)
    requires
        first == decode(genome),
        second == decode(genome),
    ensures
        first.neurons == second.neurons,
        first.connections == second.connections,
        first == second,
{
}

impl Clone for Brain {
    /// An independent copy of the neurons, the connections and the genome.
    /// The copy starts without a history: its previous move is `MoveRight`.
    fn clone(&self) -> (copy: Self)
        ensures
            copy@ == copy_of(self@),
    {
        let copy = Brain {
            neurons: self.neurons.clone(),
            connections: self.connections.clone(),
            genome: self.genome.clone(),
            previous_move: OutputNeuron::MoveRight,
            input_neurons: self.input_neurons.clone(),
            output_neurons: self.output_neurons.clone(),
        };
        assert(copy.neurons@ =~= self.neurons@);
        assert(copy.connections@ =~= self.connections@);
        assert(copy.genome@ =~= self.genome@);
        assert(copy.input_neurons@ =~= self.input_neurons@);
        assert(copy.output_neurons@ =~= self.output_neurons@);
        copy
    }
}

impl Brain {
    /// Tests whether the brain is well formed.
    pub fn is_well_formed(&self) -> (answer: bool)
        ensures
            answer == self@.well_formed(),
    {
        let count = self.neurons.len();
        let mut i: usize = 0;
        while i < self.connections.len()
            invariant
                count == self.neurons@.len(),
                i <= self.connections.len(),
                forall|j: int|
                    0 <= j < i ==> {
                        let c = #[trigger] self.connections@[j];
                        &&& c.source < count
                        &&& c.target < count
                        &&& !(self.neurons@[c.target as int] is Input)
                    },
            decreases self.connections.len() - i,
        {
            let connection = self.connections[i];
            if connection.source >= count || connection.target >= count {
                assert(!self@.well_formed()) by {
                    let c = self@.connections[i as int];
                }
                return false;
            }
            match self.neurons[connection.target] {
                NeuronKind::Input(_) => {
                    assert(!self@.well_formed()) by {
                        let c = self@.connections[i as int];
                    }
                    return false;
                },
                _ => {},
            }
            i += 1;
        }
        let mut i: usize = 0;
        while i < self.input_neurons.len()
            invariant
                count == self.neurons@.len(),
                i <= self.input_neurons.len(),
                forall|j: int|
                    0 <= j < i ==> {
                        let n = #[trigger] self.input_neurons@[j];
                        n < count && self.neurons@[n as int] is Input
                    },
            decreases self.input_neurons.len() - i,
        {
            let position = self.input_neurons[i];
            let listed = position < count && match self.neurons[position] {
                NeuronKind::Input(_) => true,
                _ => false,
            };
            if !listed {
                assert(!self@.well_formed()) by {
                    let n = self@.input_neurons[i as int];
                }
                return false;
            }
            i += 1;
        }
        let mut i: usize = 0;
        while i < self.output_neurons.len()
            invariant
                count == self.neurons@.len(),
                i <= self.output_neurons.len(),
                forall|j: int|
                    0 <= j < i ==> {
                        let n = #[trigger] self.output_neurons@[j];
                        n < count && self.neurons@[n as int] is Output
                    },
            decreases self.output_neurons.len() - i,
        {
            let position = self.output_neurons[i];
            let listed = position < count && match self.neurons[position] {
                NeuronKind::Output(_) => true,
                _ => false,
            };
            if !listed {
                assert(!self@.well_formed()) by {
                    let n = self@.output_neurons[i as int];
                }
                return false;
            }
            i += 1;
        }
        true
    }

    /// The signal of every neuron before any connection has carried
    /// anything: zero, but for the input neurons, which hold what they
    /// sense. An input of kind `Random` senses a fresh draw from the unit
    /// interval.
    pub fn initial_signals(&self, senses: &Senses) -> (signals: Vec<i64>)
        requires
            self@.well_formed(),
        ensures
            signals@.len() == self@.neurons.len(),
            forall|n: int|
                0 <= n < signals@.len() && !self@.input_neurons.contains(n as usize)
                    ==> #[trigger] signals@[n] == 0,
            forall|n: int|
                0 <= n < signals@.len() && self@.input_neurons.contains(n as usize) ==> {
                    let kind = self@.neurons[n]->Input_0;
                    if kind == InputNeuron::Random {
                        0 <= #[trigger] signals@[n] < WEIGHT_ONE
                    } else {
                        signals@[n] == sensed(kind, self@.previous_move, *senses, 0)
                    }
                },
    {
        let mut signals: Vec<i64> = Vec::new();
        let mut n: usize = 0;
        while n < self.neurons.len()
            invariant
                n <= self.neurons.len(),
                signals@.len() == n,
                forall|m: int| 0 <= m < n ==> #[trigger] signals@[m] == 0,
            decreases self.neurons.len() - n,
        {
            signals.push(0);
            n += 1;
        }
        let mut i: usize = 0;
        while i < self.input_neurons.len()
            invariant
                self@.well_formed(),
                i <= self.input_neurons.len(),
                signals@.len() == self.neurons.len(),
                forall|m: int|
                    0 <= m < signals@.len() && !self.input_neurons@.take(i as int).contains(
                        m as usize,
                    ) ==> #[trigger] signals@[m] == 0,
                forall|m: int|
                    0 <= m < signals@.len() && self.input_neurons@.take(i as int).contains(
                        m as usize,
                    ) ==> {
                        let kind = self.neurons@[m]->Input_0;
                        if kind == InputNeuron::Random {
                            0 <= #[trigger] signals@[m] < WEIGHT_ONE
                        } else {
                            signals@[m] == sensed(kind, self.previous_move, *senses, 0)
                        }
                    },
            decreases self.input_neurons.len() - i,
        {
            let position = self.input_neurons[i];
            assert(position == self@.input_neurons[i as int]);
            let kind = match self.neurons[position] {
                NeuronKind::Input(kind) => kind,
                _ => InputNeuron::Random,
            };
            let random: i64 = match kind {
                InputNeuron::Random => random_below(WEIGHT_ONE as u64) as i64,
                _ => 0,
            };
            let signal = input_signal(kind, self.previous_move, senses, random);
            signals.set(position, signal);
            proof {
                let before = self.input_neurons@.take(i as int);
                let after = self.input_neurons@.take(i + 1);
                assert(after =~= before.push(position));
                assert forall|m: usize| after.contains(m) <==> (before.contains(m) || m
                    == position) by {
                    if before.contains(m) {
                        let k = choose|k: int| 0 <= k < before.len() && before[k] == m;
                        assert(after[k] == m);
                    }
                    if m == position {
                        assert(after[i as int] == m);
                    }
                }
            }
            i += 1;
        }
        assert(self.input_neurons@.take(i as int) =~= self.input_neurons@);
        signals
    }

    /// Decides on an action from the final signal of every neuron, and
    /// remembers it as the previous move.
    pub fn decide(&mut self, signals: &Vec<i64>) -> (action: OutputNeuron)
        requires
            old(self)@.well_formed(),
            signals@.len() == old(self)@.neurons.len(),
        ensures
            action == decision(old(self)@, signals@),
            final(self)@ == (BrainView { previous_move: action, ..old(self)@ }),
    {
        let count = self.output_neurons.len();
        let mut action = OutputNeuron::MoveRandom;
        if count > 0 {
            let mut best: usize = 0;
            let mut k: usize = 1;
            while k < count
                invariant
                    self@.well_formed(),
                    signals@.len() == self@.neurons.len(),
                    count == self.output_neurons.len(),
                    1 <= k <= count,
                    best == strongest(self.output_neurons@, signals@, k as int),
                    0 <= best < k,
                decreases count - k,
            {
                assert(self.output_neurons[k as int] == self@.output_neurons[k as int]);
                assert(self.output_neurons[best as int] == self@.output_neurons[best as int]);
                if signals[self.output_neurons[k]] > signals[self.output_neurons[best]] {
                    best = k;
                }
                k += 1;
            }
            assert(self.output_neurons[best as int] == self@.output_neurons[best as int]);
            action =
            match self.neurons[self.output_neurons[best]] {
                NeuronKind::Output(kind) => kind,
                _ => OutputNeuron::MoveRandom,
            };
        }
        self.previous_move = action;
        action
    }

    /// Adds a delta to the weight of one connection and clamps the weight
    /// to the unit interval. Nothing else changes.
    pub fn perturb_connection(&mut self, index: usize, delta: i64)
        requires
            index < old(self)@.connections.len(),
        ensures
            final(self)@ == with_perturbed_connection(old(self)@, index as int, delta as int),
            in_unit_interval(final(self)@.connections[index as int].weight),
            old(self)@.well_formed() ==> final(self)@.well_formed(),
    {
        proof {
            if self@.well_formed() {
                perturbed_brain_is_well_formed(self@, index as int, delta as int);
            }
        }
        let connection = self.connections[index];
        let weight = perturb(connection.weight, delta);
        self.connections.set(
            index,
            Connection { source: connection.source, target: connection.target, weight },
        );
    }

    /// Perturbs the weight of one connection, picked at random, by a delta
    /// drawn at random from `-magnitude..=magnitude`. A brain without
    /// connections stays as it is.
    pub fn mutate_connection(&mut self, magnitude: u32)
        ensures
            old(self)@.connections.len() == 0 ==> final(self)@ == old(self)@,
            old(self)@.connections.len() > 0 ==> exists|index: int, delta: int|
                0 <= index < old(self)@.connections.len() && -magnitude <= delta <= magnitude
                    && final(self)@ == #[trigger] with_perturbed_connection(
                    old(self)@,
                    index,
                    delta,
                ) && in_unit_interval(final(self)@.connections[index].weight),
            old(self)@.well_formed() ==> final(self)@.well_formed(),
    {
        if self.connections.len() > 0 {
            let index = random_below(self.connections.len() as u64) as usize;
            let delta = random_delta(magnitude);
            self.perturb_connection(index, delta);
        }
    }

    /// Gives the neuron at a position, if it is a hidden one, another
    /// activation, and appends a connection between the two neurons that
    /// were added last.
    pub fn restructure(&mut self, position: usize, kind: HiddenNeuron, weight: i32)
        requires
            old(self)@.well_formed(),
        ensures
            final(self)@ == restructured(old(self)@, position as int, kind, weight),
            final(self)@.well_formed(),
    {
        let count = self.neurons.len();
        proof {
            restructured_brain_is_well_formed(self@, position as int, kind, weight);
        }
        let appends = count >= 2 && match self.neurons[count - 1] {
            NeuronKind::Input(_) => false,
            _ => true,
        };
        if position < count {
            match self.neurons[position] {
                NeuronKind::Hidden(_) => {
                    self.neurons.set(position, NeuronKind::Hidden(kind));
                },
                _ => {},
            }
        }
        if appends {
            self.connections.push(Connection { source: count - 2, target: count - 1, weight });
        }
    }

    /// A structural mutation: a neuron picked at random, if it is a hidden
    /// one, gets another activation than it has, and a connection with a
    /// fresh random weight is appended between the two neurons that were
    /// added last. A brain without neurons stays as it is.
    pub fn mutate_structure(&mut self)
        requires
            old(self)@.well_formed(),
        ensures
            final(self)@.well_formed(),
            old(self)@.neurons.len() == 0 ==> final(self)@ == old(self)@,
            old(self)@.neurons.len() > 0 ==> exists|position: int, kind: HiddenNeuron, weight: i32|
                {
                    &&& 0 <= position < old(self)@.neurons.len()
                    &&& old(self)@.neurons[position] != NeuronKind::Hidden(kind)
                    &&& -(WEIGHT_ONE as int) <= weight < WEIGHT_ONE
                    &&& final(self)@ == #[trigger] restructured(old(self)@, position, kind, weight)
                },
    {
        let count = self.neurons.len();
        if count > 0 {
            let position = random_below(count as u64) as usize;
            let shift = 1 + random_below(HIDDEN_NEURON_COUNT as u64 - 1) as usize;
            let current: usize = match self.neurons[position] {
                NeuronKind::Hidden(kind) => kind.discriminant(),
                _ => 0,
            };
            let kind = HiddenNeuron::from_discriminant(current + shift);
            let weight = (random_below(2 * (WEIGHT_ONE as u64)) as i64 - WEIGHT_ONE as i64) as i32;
            assert(kind.index() != current);
            self.restructure(position, kind, weight);
        }
    }
}

} // verus!
