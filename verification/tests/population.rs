use life_sim::body::{resolve_direction, Body};
use life_sim::entity::{
    get_random_position, spawn_entities, spawn_entity, spawn_next_generation, Entity, SpawnError,
};
use life_sim::entity_config::EntityConfig;
use life_sim::genome::gene::Gene;
use life_sim::grid_config::{grid_coords_to_index, grid_index_to_coords, GridConfig};
use life_sim::neural_network::brain::Brain;
use life_sim::neural_network::output_neuron::OutputNeuron;
use life_sim::neural_network_config::NeuralNetworkConfig;

fn network(mutation_rate: u32) -> NeuralNetworkConfig {
    NeuralNetworkConfig { hidden_layer_width: 3, hidden_layer_depth: 2, mutation_rate }
}

fn entities_config(start_count: u32, child_count: u32) -> EntityConfig {
    EntityConfig {
        start_count,
        child_count,
        survivor_breed_rate: 1_000_000,
        mutation_rate: 0,
        mutation_magnitude: 100_000,
    }
}

fn parent(tag: u16, times_eaten: u32) -> Entity {
    let genome = vec![
        Gene {
            source_is_hidden: false,
            source_discriminant: tag,
            source_instance: tag,
            target_is_output: false,
            target_discriminant: 2,
            target_instance: 0,
            weight: 10 * tag as i32,
        },
        Gene {
            source_is_hidden: true,
            source_discriminant: 2,
            source_instance: 0,
            target_is_output: true,
            target_discriminant: tag,
            target_instance: 1,
            weight: -10 * tag as i32,
        },
    ];
    Entity {
        brain: Brain::from_genome(genome),
        body: Body::new(0, 0, 0),
        times_eaten,
        times_irradiated: 0,
    }
}

fn differing_genes(a: &Vec<Gene>, b: &Vec<Gene>) -> usize {
    assert_eq!(a.len(), b.len());
    (0..a.len()).filter(|i| a[*i] != b[*i]).count()
}

fn assert_apart(entities: &Vec<Entity>, grid: &GridConfig) {
    let mut cells: Vec<u64> = entities
        .iter()
        .map(|entity| {
            assert!(entity.body.x < grid.width);
            assert!(entity.body.y < grid.height);
            grid_coords_to_index(entity.body.x, entity.body.y, grid.width)
        })
        .collect();
    cells.sort();
    cells.dedup();
    assert_eq!(cells.len(), entities.len());
}

fn assert_newborn(entity: &Entity) {
    assert!(entity.body.is_alive);
    assert_eq!(entity.times_eaten, 0);
    assert_eq!(entity.times_irradiated, 0);
    assert!(0 <= entity.body.color_gradient_index);
    assert!(entity.body.color_gradient_index < 1_000_000);
    let again = Brain::from_genome(entity.brain.genome.clone());
    assert_eq!(again.neurons, entity.brain.neurons);
    assert_eq!(again.connections, entity.brain.connections);
}

#[test]
fn cells_are_numbered_row_by_row() {
    assert_eq!(grid_coords_to_index(0, 0, 7), 0);
    assert_eq!(grid_coords_to_index(3, 0, 7), 3);
    assert_eq!(grid_coords_to_index(3, 2, 7), 17);
    assert_eq!(grid_coords_to_index(6, 4, 7), 34);
    assert_eq!(
        grid_coords_to_index(u32::MAX, u32::MAX, u32::MAX),
        u32::MAX as u64 * u32::MAX as u64 + u32::MAX as u64
    );
    assert_eq!(grid_index_to_coords(17, 7, 5), (3, 2));
    assert_eq!(grid_index_to_coords(34, 7, 5), (6, 4));
    assert_eq!(grid_index_to_coords(0, 7, 5), (0, 0));
    assert_eq!(GridConfig { width: 7, height: 5 }.cell_count(), 35);
    assert_eq!(GridConfig { width: 0, height: 5 }.cell_count(), 0);
    assert_eq!(
        GridConfig { width: u32::MAX, height: u32::MAX }.cell_count(),
        18_446_744_065_119_617_025
    );
}

#[test]
fn a_position_is_found_on_a_grid_with_one_free_cell() {
    let occupied: Vec<u64> = (0..100u64).filter(|cell| *cell != 57).collect();
    for _ in 0..20 {
        assert_eq!(get_random_position(&occupied, 10, 10), Ok((7, 5)));
    }
}

#[test]
fn no_position_is_found_on_a_full_grid() {
    let occupied: Vec<u64> = (0..12u64).rev().collect();
    assert_eq!(get_random_position(&occupied, 4, 3), Err(SpawnError::NoSpace));
    assert_eq!(get_random_position(&Vec::new(), 0, 3), Err(SpawnError::NoSpace));
    assert_eq!(get_random_position(&Vec::new(), 3, 0), Err(SpawnError::NoSpace));
    assert_eq!(get_random_position(&Vec::new(), 0, 0), Err(SpawnError::NoSpace));
}

#[test]
fn random_positions_lie_on_the_grid_and_are_free() {
    let occupied: Vec<u64> = vec![0, 1, 2, 5, 8, 300];
    for _ in 0..300 {
        let (x, y) = get_random_position(&occupied, 3, 3).unwrap();
        assert!(x < 3 && y < 3);
        assert!(!occupied.contains(&grid_coords_to_index(x, y, 3)));
    }
}

#[test]
fn spawning_an_entity_takes_its_cell() {
    let grid = GridConfig { width: 2, height: 2 };
    let mut occupied: Vec<u64> = vec![3, 0];
    let first = spawn_entity(parent(1, 0).brain, &mut occupied, &grid).unwrap();
    assert_newborn(&first);
    assert_eq!(occupied.len(), 3);
    assert_eq!(occupied[..2], [3, 0]);
    assert_eq!(occupied[2], grid_coords_to_index(first.body.x, first.body.y, 2));
    assert!(occupied[2] == 1 || occupied[2] == 2);
    assert_eq!(first.brain.genome, parent(1, 0).brain.genome);
    let second = spawn_entity(parent(2, 0).brain, &mut occupied, &grid).unwrap();
    assert_eq!(occupied.len(), 4);
    assert_eq!(occupied[2] + occupied[3], 3);
    assert_eq!(occupied[3], grid_coords_to_index(second.body.x, second.body.y, 2));
    let third = spawn_entity(parent(3, 0).brain, &mut occupied, &grid);
    assert_eq!(third.err(), Some(SpawnError::NoSpace));
    assert_eq!(occupied.len(), 4);
}

#[test]
fn spawned_entities_stand_apart() {
    let grid = GridConfig { width: 5, height: 4 };
    let (entities, occupied) = spawn_entities(&grid, &network(0), 20, None).unwrap();
    assert_eq!(entities.len(), 20);
    assert_eq!(occupied.len(), 20);
    assert_apart(&entities, &grid);
    for (entity, cell) in entities.iter().zip(occupied.iter()) {
        assert_newborn(entity);
        assert_eq!(*cell, grid_coords_to_index(entity.body.x, entity.body.y, 5));
        assert_eq!(entity.brain.genome.len(), 9);
    }
}

#[test]
fn spawning_keeps_the_entities_that_exist() {
    let grid = GridConfig { width: 3, height: 3 };
    let existing = vec![parent(1, 4), parent(2, 5)];
    let (entities, occupied) =
        spawn_entities(&grid, &network(0), 3, Some((existing, vec![4, 8]))).unwrap();
    assert_eq!(entities.len(), 5);
    assert_eq!(entities[0].times_eaten, 4);
    assert_eq!(entities[1].times_eaten, 5);
    assert_eq!(entities[0].brain.genome, parent(1, 0).brain.genome);
    assert_eq!(occupied.len(), 5);
    assert_eq!(occupied[..2], [4, 8]);
    let mut cells = occupied.clone();
    cells.sort();
    cells.dedup();
    assert_eq!(cells.len(), 5);
    assert_apart(&entities[2..].iter().map(|e| parent_like(e)).collect(), &grid);
}

fn parent_like(entity: &Entity) -> Entity {
    Entity {
        brain: entity.brain.clone(),
        body: entity.body,
        times_eaten: entity.times_eaten,
        times_irradiated: entity.times_irradiated,
    }
}

#[test]
fn spawning_fails_when_the_grid_runs_out_of_cells() {
    let grid = GridConfig { width: 3, height: 2 };
    assert!(spawn_entities(&grid, &network(0), 6, None).is_ok());
    assert_eq!(spawn_entities(&grid, &network(0), 7, None).err(), Some(SpawnError::NoSpace));
    let taken = Some((Vec::new(), vec![0u64, 5]));
    assert!(spawn_entities(&grid, &network(0), 4, taken).is_ok());
    let taken = Some((Vec::new(), vec![0u64, 5]));
    assert_eq!(spawn_entities(&grid, &network(0), 5, taken).err(), Some(SpawnError::NoSpace));
    let zero = spawn_entities(&GridConfig { width: 0, height: 0 }, &network(0), 0, None).unwrap();
    assert_eq!(zero.0.len(), 0);
}

#[test]
fn two_survivors_with_three_children_each_breed_six() {
    let grid = GridConfig { width: 8, height: 8 };
    for mutation_rate in [0, 500_000, 1_000_000] {
        let parents = vec![parent(1, 0), parent(2, 0)];
        let generation = spawn_next_generation(
            &grid,
            &entities_config(100, 3),
            &network(mutation_rate),
            false,
            false,
            parents,
        )
        .unwrap();
        assert_eq!(generation.len(), 6);
        assert_apart(&generation, &grid);
        for (k, child) in generation.iter().enumerate() {
            assert_newborn(child);
            let parent_genome = parent(1 + (k / 3) as u16, 0).brain.genome;
            let differing = differing_genes(&child.brain.genome, &parent_genome);
            assert!(differing <= 1);
            if mutation_rate == 0 {
                assert_eq!(differing, 0);
            }
        }
    }
}

#[test]
fn children_mutate_at_the_configured_rate() {
    let grid = GridConfig { width: 40, height: 40 };
    let mut config = entities_config(0, 200);
    config.mutation_magnitude = 1;
    let generation =
        spawn_next_generation(&grid, &config, &network(1_000_000), false, false, vec![parent(3, 0)])
            .unwrap();
    assert_eq!(generation.len(), 200);
    let mutated = generation
        .iter()
        .filter(|child| differing_genes(&child.brain.genome, &parent(3, 0).brain.genome) == 1)
        .count();
    assert!(mutated > 150);
    for child in &generation {
        for (gene, original) in child.brain.genome.iter().zip(parent(3, 0).brain.genome.iter()) {
            assert!((gene.weight - original.weight).abs() <= 1);
        }
    }
}

#[test]
fn a_supplemented_generation_has_the_start_count() {
    let grid = GridConfig { width: 10, height: 10 };
    let config = entities_config(25, 3);
    for survivors in [0u16, 1, 2, 8] {
        let parents: Vec<Entity> = (0..survivors).map(|tag| parent(tag, 0)).collect();
        let generation =
            spawn_next_generation(&grid, &config, &network(500_000), true, false, parents).unwrap();
        assert_eq!(generation.len(), 25);
        assert_apart(&generation, &grid);
        for (k, entity) in generation.iter().enumerate() {
            assert_newborn(entity);
            if k < 3 * survivors as usize {
                let parent_genome = parent((k / 3) as u16, 0).brain.genome;
                assert!(differing_genes(&entity.brain.genome, &parent_genome) <= 1);
            } else {
                assert_eq!(entity.brain.genome.len(), 9);
            }
        }
    }
}

#[test]
fn a_generation_of_no_survivors_is_all_fresh() {
    let grid = GridConfig { width: 10, height: 10 };
    let generation = spawn_next_generation(
        &grid,
        &entities_config(12, 3),
        &network(0),
        true,
        true,
        Vec::new(),
    )
    .unwrap();
    assert_eq!(generation.len(), 12);
    assert!(generation.iter().all(|entity| entity.brain.genome.len() == 9));
    let none = spawn_next_generation(
        &grid,
        &entities_config(12, 3),
        &network(0),
        false,
        true,
        Vec::new(),
    )
    .unwrap();
    assert_eq!(none.len(), 0);
}

#[test]
fn more_children_than_the_start_count_are_not_cut_without_a_limit() {
    let grid = GridConfig { width: 10, height: 10 };
    let parents: Vec<Entity> = (0..5).map(|tag| parent(tag, 0)).collect();
    let generation =
        spawn_next_generation(&grid, &entities_config(10, 3), &network(0), true, false, parents)
            .unwrap();
    assert_eq!(generation.len(), 15);
}

#[test]
fn a_limited_population_breeds_from_those_that_ate_most() {
    let grid = GridConfig { width: 10, height: 10 };
    let parents =
        vec![parent(1, 2), parent(2, 9), parent(3, 2), parent(4, 0), parent(5, 9), parent(6, 3)];
    let generation =
        spawn_next_generation(&grid, &entities_config(10, 3), &network(0), true, true, parents)
            .unwrap();
    assert_eq!(generation.len(), 10);
    let expected_parents = [2u16, 2, 2, 5, 5, 5, 6, 6, 6];
    for (k, tag) in expected_parents.iter().enumerate() {
        assert_eq!(generation[k].brain.genome, parent(*tag, 0).brain.genome);
    }
    assert_eq!(generation[9].brain.genome.len(), 9);
    let parents = vec![parent(1, 2), parent(2, 9), parent(3, 2), parent(4, 0)];
    let generation =
        spawn_next_generation(&grid, &entities_config(10, 4), &network(0), false, true, parents)
            .unwrap();
    assert_eq!(generation.len(), 8);
    for (k, tag) in [2u16, 2, 2, 2, 1, 1, 1, 1].iter().enumerate() {
        assert_eq!(generation[k].brain.genome, parent(*tag, 0).brain.genome);
    }
}

#[test]
fn a_limit_without_children_breeds_nobody() {
    let grid = GridConfig { width: 10, height: 10 };
    let parents = vec![parent(1, 2), parent(2, 9)];
    let generation =
        spawn_next_generation(&grid, &entities_config(7, 0), &network(0), true, true, parents)
            .unwrap();
    assert_eq!(generation.len(), 7);
    assert!(generation.iter().all(|entity| entity.brain.genome.len() == 9));
    let parents = vec![parent(1, 2), parent(2, 9)];
    let generation =
        spawn_next_generation(&grid, &entities_config(7, 0), &network(0), false, false, parents)
            .unwrap();
    assert_eq!(generation.len(), 0);
}

#[test]
fn breeding_fails_when_the_generation_does_not_fit_the_grid() {
    let grid = GridConfig { width: 3, height: 3 };
    let breed = |start_count, child_count, supplement, survivors: u16| {
        let parents: Vec<Entity> = (0..survivors).map(|tag| parent(tag, 0)).collect();
        spawn_next_generation(
            &grid,
            &entities_config(start_count, child_count),
            &network(0),
            supplement,
            false,
            parents,
        )
        .map(|generation| generation.len())
    };
    assert_eq!(breed(9, 3, true, 3), Ok(9));
    assert_eq!(breed(9, 3, true, 0), Ok(9));
    assert_eq!(breed(10, 3, true, 3), Err(SpawnError::NoSpace));
    assert_eq!(breed(10, 3, false, 3), Ok(9));
    assert_eq!(breed(0, 5, false, 2), Err(SpawnError::NoSpace));
    assert_eq!(breed(0, 3, true, 4), Err(SpawnError::NoSpace));
}

#[test]
fn a_parent_without_genes_has_children_without_genes() {
    let grid = GridConfig { width: 3, height: 3 };
    let empty = Entity {
        brain: Brain::from_genome(Vec::new()),
        body: Body::new(0, 0, 0),
        times_eaten: 0,
        times_irradiated: 0,
    };
    let generation = spawn_next_generation(
        &grid,
        &entities_config(0, 2),
        &network(1_000_000),
        false,
        false,
        vec![empty],
    )
    .unwrap();
    assert_eq!(generation.len(), 2);
    assert!(generation.iter().all(|child| child.brain.genome.is_empty()));
}

#[test]
fn a_body_steps_within_the_grid() {
    let grid = GridConfig { width: 3, height: 2 };
    let mut body = Body::new(1, 0, 42);
    assert!(body.is_alive);
    body.update(OutputNeuron::MoveUp, &grid);
    assert_eq!((body.x, body.y), (1, 0));
    body.update(OutputNeuron::MoveDown, &grid);
    assert_eq!((body.x, body.y), (1, 1));
    body.update(OutputNeuron::MoveDown, &grid);
    assert_eq!((body.x, body.y), (1, 1));
    body.update(OutputNeuron::MoveRight, &grid);
    assert_eq!((body.x, body.y), (2, 1));
    body.update(OutputNeuron::MoveRight, &grid);
    assert_eq!((body.x, body.y), (2, 1));
    body.update(OutputNeuron::MoveLeft, &grid);
    body.update(OutputNeuron::MoveLeft, &grid);
    assert_eq!((body.x, body.y), (0, 1));
    body.update(OutputNeuron::MoveLeft, &grid);
    assert_eq!((body.x, body.y), (0, 1));
    body.update(OutputNeuron::Stay, &grid);
    assert_eq!((body.x, body.y), (0, 1));
    body.update(OutputNeuron::MoveUp, &grid);
    assert_eq!((body.x, body.y), (0, 0));
    assert_eq!(body.color_gradient_index, 42);
    assert!(body.is_alive);
}

#[test]
fn a_body_at_the_edge_of_the_numbers_does_not_wrap() {
    let mut body = Body::new(u32::MAX, u32::MAX, 0);
    let grid = GridConfig { width: u32::MAX, height: u32::MAX };
    body.update(OutputNeuron::MoveRight, &grid);
    body.update(OutputNeuron::MoveDown, &grid);
    assert_eq!((body.x, body.y), (u32::MAX, u32::MAX));
    let mut body = Body::new(0, 0, 0);
    let nowhere = GridConfig { width: 0, height: 0 };
    for action in [OutputNeuron::MoveRight, OutputNeuron::MoveDown, OutputNeuron::MoveRandom] {
        body.update(action, &nowhere);
        assert_eq!((body.x, body.y), (0, 0));
    }
}

#[test]
fn a_random_move_is_one_step_at_most() {
    let grid = GridConfig { width: 5, height: 5 };
    let mut seen = Vec::new();
    for _ in 0..400 {
        let mut body = Body::new(2, 2, 0);
        body.update(OutputNeuron::MoveRandom, &grid);
        let step = (body.x as i64 - 2, body.y as i64 - 2);
        assert_eq!(step.0.abs() + step.1.abs(), 1);
        if !seen.contains(&step) {
            seen.push(step);
        }
    }
    assert_eq!(seen.len(), 4);
}

#[test]
fn a_draw_stands_for_a_direction() {
    assert_eq!(resolve_direction(OutputNeuron::MoveRandom, 0), OutputNeuron::MoveLeft);
    assert_eq!(resolve_direction(OutputNeuron::MoveRandom, 1), OutputNeuron::MoveRight);
    assert_eq!(resolve_direction(OutputNeuron::MoveRandom, 2), OutputNeuron::MoveUp);
    assert_eq!(resolve_direction(OutputNeuron::MoveRandom, 3), OutputNeuron::MoveDown);
    assert_eq!(resolve_direction(OutputNeuron::MoveRandom, 4), OutputNeuron::MoveLeft);
    assert_eq!(resolve_direction(OutputNeuron::MoveRandom, u32::MAX), OutputNeuron::MoveDown);
    assert_eq!(resolve_direction(OutputNeuron::Stay, 1), OutputNeuron::Stay);
    assert_eq!(resolve_direction(OutputNeuron::MoveUp, 3), OutputNeuron::MoveUp);
    let mut body = Body::new(1, 1, 0);
    body.step(OutputNeuron::MoveRandom, &GridConfig { width: 3, height: 3 });
    assert_eq!((body.x, body.y), (1, 1));
}

#[test]
fn a_colour_shifts_and_stops_at_the_ends() {
    let mut body = Body::new(0, 0, 500_000);
    body.mutate_color(-600_000);
    assert_eq!(body.color_gradient_index, -100_000);
    body.mutate_color(i64::MAX);
    assert_eq!(body.color_gradient_index, i64::MAX - 100_000);
    body.mutate_color(i64::MAX);
    assert_eq!(body.color_gradient_index, i64::MAX);
    body.mutate_color(i64::MIN);
    body.mutate_color(i64::MIN);
    assert_eq!(body.color_gradient_index, i64::MIN);
    assert_eq!((body.x, body.y, body.is_alive), (0, 0, true));
}

#[test]
fn radiation_counts_and_kills_at_the_threshold() {
    let mut entity = parent(1, 0);
    entity.irradiate(false, Some(1));
    assert_eq!(entity.times_irradiated, 0);
    assert!(entity.body.is_alive);
    entity.irradiate(true, Some(3));
    entity.irradiate(true, Some(3));
    assert_eq!(entity.times_irradiated, 2);
    assert!(entity.body.is_alive);
    entity.irradiate(true, Some(3));
    assert_eq!(entity.times_irradiated, 3);
    assert!(!entity.body.is_alive);
    entity.irradiate(true, Some(3));
    assert_eq!(entity.times_irradiated, 3);
    let mut hardy = parent(1, 0);
    for _ in 0..10 {
        hardy.irradiate(true, None);
    }
    assert_eq!(hardy.times_irradiated, 10);
    assert!(hardy.body.is_alive);
    hardy.times_irradiated = u32::MAX;
    hardy.irradiate(true, None);
    assert_eq!(hardy.times_irradiated, u32::MAX);
    let mut frail = parent(1, 0);
    frail.irradiate(true, Some(0));
    assert!(!frail.body.is_alive);
}

#[test]
fn meals_are_counted() {
    let mut entity = parent(1, 0);
    entity.eat();
    entity.eat();
    assert_eq!(entity.times_eaten, 2);
    entity.times_eaten = u32::MAX;
    entity.eat();
    assert_eq!(entity.times_eaten, u32::MAX);
}

#[test]
fn children_are_exact_clones_at_a_mutation_rate_of_nothing() {
    let grid = GridConfig { width: 20, height: 20 };
    let parents: Vec<Entity> = (0..5).map(|tag| parent(tag, tag as u32)).collect();
    let generation =
        spawn_next_generation(&grid, &entities_config(0, 40), &network(0), false, false, parents)
            .unwrap();
    assert_eq!(generation.len(), 200);
    for (k, child) in generation.iter().enumerate() {
        let original = parent((k / 40) as u16, 0).brain;
        assert_eq!(child.brain.genome, original.genome);
        assert_eq!(child.brain.neurons, original.neurons);
        assert_eq!(child.brain.connections, original.connections);
    }
}

#[test]
fn children_are_mutated_once_at_a_mutation_rate_of_a_whole() {
    let grid = GridConfig { width: 20, height: 20 };
    let mut config = entities_config(0, 100);
    config.mutation_magnitude = 0;
    for rate in [1_000_000u32, 1_000_001, u32::MAX] {
        let generation =
            spawn_next_generation(&grid, &config, &network(rate), false, false, vec![parent(3, 0)])
                .unwrap();
        assert_eq!(generation.len(), 100);
        let original = parent(3, 0).brain.genome;
        let mut flipped = 0;
        for child in &generation {
            let differing = differing_genes(&child.brain.genome, &original);
            assert!(differing <= 1);
            flipped += differing;
            for (gene, old) in child.brain.genome.iter().zip(original.iter()) {
                assert_eq!(gene.weight, old.weight);
            }
        }
        // with a magnitude of nothing only the weight band leaves a gene as it was
        assert!(flipped > 50);
    }
}
