use life_sim::genome::gene::{Gene, WEIGHT_ONE};
use life_sim::neural_network::brain::{Brain, Senses};
use life_sim::neural_network::connection::Connection;
use life_sim::neural_network::hidden_neuron::HiddenNeuron;
use life_sim::neural_network::input_neuron::InputNeuron;
use life_sim::neural_network::neuron_kind::NeuronKind;
use life_sim::neural_network::output_neuron::OutputNeuron;

fn gene(
    source_is_hidden: bool,
    source_discriminant: u16,
    source_instance: u16,
    target_is_output: bool,
    target_discriminant: u16,
    target_instance: u16,
    weight: i32,
) -> Gene {
    Gene {
        source_is_hidden,
        source_discriminant,
        source_instance,
        target_is_output,
        target_discriminant,
        target_instance,
        weight,
    }
}

fn three_layer_genome() -> Vec<Gene> {
    vec![
        gene(false, 3, 0, false, 1, 0, 500_000),
        gene(false, 4, 0, false, 1, 0, -250_000),
        gene(true, 1, 0, false, 4, 7, 125_000),
        gene(true, 4, 7, true, 1, 0, 1_000_000),
        gene(true, 1, 0, true, 5, 0, -1_000_000),
    ]
}

#[test]
fn single_gene_decodes_to_two_neurons_and_one_connection() {
    let genome = vec![gene(false, 0, 0, true, 5, 0, WEIGHT_ONE)];
    let brain = Brain::from_genome(genome);
    assert_eq!(brain.neurons.len(), 2);
    assert_eq!(brain.connections.len(), 1);
    assert_eq!(brain.neurons[0], NeuronKind::Input(InputNeuron::Random));
    assert_eq!(brain.neurons[1], NeuronKind::Output(OutputNeuron::Stay));
    assert_eq!(brain.connections[0].source, 0);
    assert_eq!(brain.connections[0].target, 1);
    assert_eq!(brain.connections[0].weight, WEIGHT_ONE);
    assert_eq!(brain.input_neurons, vec![0]);
    assert_eq!(brain.output_neurons, vec![1]);
}

#[test]
fn single_gene_brain_always_stays() {
    let mut brain = Brain::from_genome(vec![gene(false, 0, 0, true, 5, 0, WEIGHT_ONE)]);
    for signals in [vec![0, 0], vec![-5, 999_999], vec![i64::MAX, i64::MIN], vec![7, 7]] {
        assert_eq!(brain.decide(&signals), OutputNeuron::Stay);
        assert_eq!(brain.previous_move, OutputNeuron::Stay);
    }
}

#[test]
fn decoding_twice_gives_the_same_brain() {
    let first = Brain::from_genome(three_layer_genome());
    let second = Brain::from_genome(three_layer_genome());
    assert_eq!(first.neurons, second.neurons);
    assert_eq!(first.connections, second.connections);
    assert_eq!(first.input_neurons, second.input_neurons);
    assert_eq!(first.output_neurons, second.output_neurons);
    assert_eq!(first.genome, second.genome);
}

#[test]
fn neurons_come_in_order_of_first_appearance_and_are_shared() {
    let brain = Brain::from_genome(three_layer_genome());
    assert_eq!(
        brain.neurons,
        vec![
            NeuronKind::Input(InputNeuron::Time),
            NeuronKind::Hidden(HiddenNeuron::Gaussian),
            NeuronKind::Input(InputNeuron::DangerDist),
            NeuronKind::Hidden(HiddenNeuron::Tanh),
            NeuronKind::Output(OutputNeuron::MoveUp),
            NeuronKind::Output(OutputNeuron::Stay),
        ]
    );
    assert_eq!(
        brain.connections,
        vec![
            Connection { source: 0, target: 1, weight: 500_000 },
            Connection { source: 2, target: 1, weight: -250_000 },
            Connection { source: 1, target: 3, weight: 125_000 },
            Connection { source: 3, target: 4, weight: 1_000_000 },
            Connection { source: 1, target: 5, weight: -1_000_000 },
        ]
    );
    assert_eq!(brain.input_neurons, vec![0, 2]);
    assert_eq!(brain.output_neurons, vec![4, 5]);
    assert_eq!(brain.previous_move, OutputNeuron::MoveRight);
}

#[test]
fn the_same_key_names_different_neurons_in_different_roles() {
    let brain = Brain::from_genome(vec![
        gene(false, 2, 9, false, 2, 9, 1),
        gene(true, 2, 9, true, 2, 9, 2),
    ]);
    assert_eq!(
        brain.neurons,
        vec![
            NeuronKind::Input(InputNeuron::PreviousMoveDirCos),
            NeuronKind::Hidden(HiddenNeuron::ReLU),
            NeuronKind::Output(OutputNeuron::MoveDown),
        ]
    );
    assert_eq!(brain.connections[1].source, 1);
    assert_eq!(brain.connections[1].target, 2);
}

#[test]
fn discriminants_are_keyed_as_written_and_reduced_for_the_kind() {
    let brain = Brain::from_genome(vec![
        gene(true, 0, 0, false, 5, 0, 0),
        gene(true, 65535, 65535, true, 65535, 65535, 0),
        gene(false, 65535, 0, true, 6, 0, 0),
    ]);
    assert_eq!(
        brain.neurons,
        vec![
            NeuronKind::Hidden(HiddenNeuron::Identity),
            NeuronKind::Hidden(HiddenNeuron::Identity),
            NeuronKind::Hidden(HiddenNeuron::Identity),
            NeuronKind::Output(OutputNeuron::MoveLeft),
            NeuronKind::Input(InputNeuron::DangerDirCos),
            NeuronKind::Output(OutputNeuron::MoveRandom),
        ]
    );
    assert_eq!(brain.connections.len(), 3);
    for connection in &brain.connections {
        assert!(connection.source < brain.neurons.len());
        assert!(connection.target < brain.neurons.len());
    }
}

#[test]
fn empty_genome_decodes_to_an_empty_brain_that_moves_at_random() {
    let mut brain = Brain::from_genome(Vec::new());
    assert_eq!(brain.neurons.len(), 0);
    assert_eq!(brain.connections.len(), 0);
    assert_eq!(brain.decide(&Vec::new()), OutputNeuron::MoveRandom);
}

#[test]
fn level_signals_decide_on_the_first_output() {
    let mut brain = Brain::from_genome(three_layer_genome());
    assert_eq!(brain.decide(&vec![0, 0, 0, 0, 0, 0]), OutputNeuron::MoveUp);
    assert_eq!(brain.decide(&vec![9, 9, 9, 9, 4, 4]), OutputNeuron::MoveUp);
}

#[test]
fn the_greatest_output_signal_decides() {
    let mut brain = Brain::from_genome(three_layer_genome());
    assert_eq!(brain.decide(&vec![0, 0, 0, 0, -3, -2]), OutputNeuron::Stay);
    assert_eq!(brain.previous_move, OutputNeuron::Stay);
    assert_eq!(brain.decide(&vec![900, 900, 900, 900, 1, 0]), OutputNeuron::MoveUp);
    assert_eq!(brain.previous_move, OutputNeuron::MoveUp);
}

#[test]
fn the_first_of_several_greatest_outputs_decides() {
    let mut brain = Brain::from_genome(vec![
        gene(false, 0, 0, true, 1, 0, 0),
        gene(false, 0, 0, true, 2, 0, 0),
        gene(false, 0, 0, true, 3, 0, 0),
    ]);
    assert_eq!(brain.output_neurons, vec![1, 2, 3]);
    assert_eq!(brain.decide(&vec![0, 1, 5, 5]), OutputNeuron::MoveDown);
    assert_eq!(brain.decide(&vec![0, 5, 5, 5]), OutputNeuron::MoveUp);
    assert_eq!(brain.decide(&vec![0, 1, 2, 3]), OutputNeuron::MoveLeft);
}

#[test]
fn initial_signals_hold_what_the_inputs_sense() {
    let mut brain = Brain::from_genome(vec![
        gene(false, 3, 0, false, 0, 0, 0),
        gene(false, 4, 0, false, 0, 0, 0),
        gene(false, 5, 0, false, 0, 0, 0),
        gene(false, 6, 0, false, 0, 0, 0),
        gene(false, 7, 0, false, 0, 0, 0),
        gene(false, 8, 0, true, 3, 0, 0),
        gene(false, 1, 0, true, 3, 0, 0),
        gene(false, 2, 0, true, 3, 0, 0),
    ]);
    let senses = Senses {
        generation_time: 11,
        danger_dist: 22,
        danger_dir_sin: -33,
        danger_dir_cos: 44,
        food_dir_sin: 55,
        food_dir_cos: -66,
    };
    // time, hidden, danger distance, sin, cos, food sin, food cos, output,
    // previous move sin, previous move cos
    assert_eq!(brain.initial_signals(&senses), vec![11, 0, 22, -33, 44, 55, -66, 0, 0, 1_000_000]);
    assert_eq!(brain.decide(&vec![0; 10]), OutputNeuron::MoveLeft);
    assert_eq!(brain.initial_signals(&senses), vec![11, 0, 22, -33, 44, 55, -66, 0, 0, -1_000_000]);
    brain.previous_move = OutputNeuron::MoveUp;
    assert_eq!(brain.initial_signals(&senses), vec![11, 0, 22, -33, 44, 55, -66, 0, 1_000_000, 0]);
    brain.previous_move = OutputNeuron::MoveDown;
    assert_eq!(brain.initial_signals(&senses), vec![11, 0, 22, -33, 44, 55, -66, 0, -1_000_000, 0]);
    brain.previous_move = OutputNeuron::Stay;
    assert_eq!(brain.initial_signals(&senses), vec![11, 0, 22, -33, 44, 55, -66, 0, 0, 0]);
}

#[test]
fn a_random_input_senses_a_share_of_one() {
    let brain = Brain::from_genome(vec![gene(false, 0, 0, true, 5, 0, WEIGHT_ONE)]);
    let senses = Senses {
        generation_time: 0,
        danger_dist: 0,
        danger_dir_sin: 0,
        danger_dir_cos: 0,
        food_dir_sin: 0,
        food_dir_cos: 0,
    };
    for _ in 0..200 {
        let signals = brain.initial_signals(&senses);
        assert_eq!(signals.len(), 2);
        assert!(0 <= signals[0] && signals[0] < 1_000_000);
        assert_eq!(signals[1], 0);
    }
}

#[test]
fn a_clone_is_independent_of_its_original() {
    let original = Brain::from_genome(three_layer_genome());
    let mut copy = original.clone();
    assert_eq!(copy.neurons, original.neurons);
    assert_eq!(copy.connections, original.connections);
    assert_eq!(copy.genome, original.genome);
    copy.perturb_connection(2, 300_000);
    assert_eq!(copy.connections[2].weight, 425_000);
    assert_eq!(original.connections[2].weight, 125_000);
    for _ in 0..50 {
        copy.mutate_connection(100_000);
    }
    assert_eq!(original.connections, Brain::from_genome(three_layer_genome()).connections);
}

#[test]
fn a_clone_starts_without_a_history() {
    let mut original = Brain::from_genome(three_layer_genome());
    assert_eq!(original.decide(&vec![0, 0, 0, 0, 1, 2]), OutputNeuron::Stay);
    let copy = original.clone();
    assert_eq!(original.previous_move, OutputNeuron::Stay);
    assert_eq!(copy.previous_move, OutputNeuron::MoveRight);
}

#[test]
fn perturbing_a_connection_clamps_its_weight() {
    let mut brain = Brain::from_genome(three_layer_genome());
    brain.perturb_connection(0, 600_000);
    assert_eq!(brain.connections[0].weight, 1_000_000);
    brain.perturb_connection(0, -2_500_000);
    assert_eq!(brain.connections[0].weight, -1_000_000);
    brain.perturb_connection(1, 250_001);
    assert_eq!(brain.connections[1].weight, 1);
    brain.perturb_connection(1, i64::MAX);
    assert_eq!(brain.connections[1].weight, 1_000_000);
    brain.perturb_connection(1, i64::MIN);
    assert_eq!(brain.connections[1].weight, -1_000_000);
    assert_eq!(brain.connections[2].weight, 125_000);
}

#[test]
fn mutating_a_connection_changes_one_weight_within_the_magnitude() {
    for _ in 0..200 {
        let mut brain = Brain::from_genome(three_layer_genome());
        let before = brain.connections.clone();
        brain.mutate_connection(50_000);
        let changed: Vec<usize> =
            (0..before.len()).filter(|i| before[*i] != brain.connections[*i]).collect();
        assert!(changed.len() <= 1);
        for i in changed {
            assert_eq!(brain.connections[i].source, before[i].source);
            assert_eq!(brain.connections[i].target, before[i].target);
            let delta = (brain.connections[i].weight - before[i].weight).abs();
            assert!(delta <= 50_000);
            assert!(brain.connections[i].weight.abs() <= WEIGHT_ONE);
        }
    }
}

#[test]
fn mutating_a_connection_with_magnitude_zero_changes_nothing() {
    let mut brain = Brain::from_genome(three_layer_genome());
    for _ in 0..50 {
        brain.mutate_connection(0);
    }
    assert_eq!(brain.connections, Brain::from_genome(three_layer_genome()).connections);
    let mut empty = Brain::from_genome(Vec::new());
    empty.mutate_connection(100_000);
    assert_eq!(empty.connections.len(), 0);
}

#[test]
fn restructuring_changes_a_hidden_kind_and_appends_a_connection() {
    let mut brain = Brain::from_genome(three_layer_genome());
    brain.restructure(1, HiddenNeuron::Sigmoid, -7);
    assert_eq!(brain.neurons[1], NeuronKind::Hidden(HiddenNeuron::Sigmoid));
    assert_eq!(brain.connections.len(), 6);
    assert_eq!(brain.connections[5], Connection { source: 4, target: 5, weight: -7 });
    brain.restructure(0, HiddenNeuron::Tanh, 3);
    assert_eq!(brain.neurons[0], NeuronKind::Input(InputNeuron::Time));
    assert_eq!(brain.connections.len(), 7);
    brain.restructure(99, HiddenNeuron::Tanh, 3);
    assert_eq!(brain.connections.len(), 8);
}

#[test]
fn restructuring_never_connects_into_an_input() {
    let mut brain = Brain::from_genome(vec![
        gene(false, 0, 0, true, 5, 0, 1),
        gene(false, 3, 0, true, 5, 0, 1),
    ]);
    assert_eq!(brain.neurons[2], NeuronKind::Input(InputNeuron::Time));
    brain.restructure(0, HiddenNeuron::Tanh, 3);
    assert_eq!(brain.connections.len(), 2);
    let mut lone = Brain::from_genome(Vec::new());
    lone.mutate_structure();
    assert_eq!(lone.neurons.len(), 0);
    assert_eq!(lone.connections.len(), 0);
}

#[test]
fn a_structural_mutation_keeps_the_brain_well_formed() {
    for _ in 0..200 {
        let mut brain = Brain::from_genome(three_layer_genome());
        let before = brain.neurons.clone();
        brain.mutate_structure();
        assert_eq!(brain.neurons.len(), before.len());
        let changed: Vec<usize> =
            (0..before.len()).filter(|i| before[*i] != brain.neurons[*i]).collect();
        assert!(changed.len() <= 1);
        for i in changed {
            assert!(matches!(before[i], NeuronKind::Hidden(_)));
            assert!(matches!(brain.neurons[i], NeuronKind::Hidden(_)));
        }
        assert_eq!(brain.connections.len(), 6);
        assert_eq!(brain.connections[5].source, 4);
        assert_eq!(brain.connections[5].target, 5);
        assert!(brain.connections[5].weight >= -WEIGHT_ONE);
        assert!(brain.connections[5].weight < WEIGHT_ONE);
    }
}
