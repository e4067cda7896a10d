use vstd::prelude::*;

use crate::body::Body;
use crate::entity_config::EntityConfig;
use crate::genome::gene::{Gene, WEIGHT_ONE};
use crate::genome::mutation::{child_genome, mutated_once, RATE_ONE};
use crate::genome::{layered, random_genome};
use crate::grid_config::{
    cell_index, cell_index_in_grid, grid_coords_to_index, grid_index_to_coords, GridConfig,
};
use crate::neural_network::brain::{decode, Brain};
use crate::neural_network_config::NeuralNetworkConfig;
use crate::random::{random_below, random_u32};
use crate::selection::{rank_entities, ranked, ranked_is_a_permutation, Ranking};

verus! {

/// Random cells tried before the grid is searched cell by cell.
pub const RANDOM_PLACEMENT_ATTEMPTS: u32 = 1000;

/// An agent: a brain in a body, and what has happened to it.
#[derive(Debug)]
pub struct Entity {
    pub brain: Brain,
    pub body: Body,
    pub times_eaten: u32,
    pub times_irradiated: u32,
}

/// Why an agent could not be placed.
#[derive(Clone, Copy, Debug, PartialEq, Eq, Structural)]
pub enum SpawnError {
    /// Every cell of the grid is taken.
    NoSpace,
}

/// Agents together with the cells that are taken.
pub type SpawnedEntities = (Vec<Entity>, Vec<u64>);

/// Number of cells with an index below `cells` that are not taken.
pub open spec fn free_below(occupied: Seq<u64>, cells: int) -> nat
    decreases cells,
{
    if cells <= 0 {
        0
    } else if occupied.contains((cells - 1) as u64) {
        free_below(occupied, cells - 1)
    } else {
        free_below(occupied, cells - 1) + 1
    }
}

impl Entity {
    /// The cell that the agent stands on.
    pub open spec fn cell(self, grid: GridConfig) -> u64 {
        cell_index(self.body.x, self.body.y, grid.width) as u64
    }

    /// The agent has just been placed: it stands on the grid, lives, and has
    /// neither eaten nor been irradiated.
    pub open spec fn newborn(self, grid: GridConfig) -> bool {
        &&& self.body.x < grid.width
        &&& self.body.y < grid.height
        &&& self.body.is_alive
        &&& 0 <= self.body.color_gradient_index < WEIGHT_ONE
        &&& self.times_eaten == 0
        &&& self.times_irradiated == 0
    }

    /// The agent's brain was decoded from a freshly generated genome.
    pub open spec fn randomized(self, network_config: NeuralNetworkConfig) -> bool {
        &&& layered(
            self.brain.genome@,
            network_config.hidden_layer_width as int,
            network_config.hidden_layer_depth as int,
        )
        &&& self.brain@ == decode(self.brain.genome@)
        &&& self.brain@.well_formed()
    }

    /// The agent after a step in or out of radiation. A living agent in a
    /// zone is irradiated once more, and dies when that reaches the death
    /// threshold, if there is one; the count stops at the greatest number
    /// it can hold.
    pub open spec fn irradiated(self, in_zone: bool, death_threshold: Option<u32>) -> Entity {
        if !self.body.is_alive || !in_zone {
            self
        } else {
            let times = if self.times_irradiated < u32::MAX {
                (self.times_irradiated + 1) as u32
            } else {
                self.times_irradiated
            };
            let dies = death_threshold matches Some(threshold) && times >= threshold;
            Entity {
                times_irradiated: times,
                body: Body { is_alive: !dies, ..self.body },
                ..self
            }
        }
    }

    /// The agent after a meal; the count stops at the greatest number it
    /// can hold.
    pub open spec fn fed(self) -> Entity {
        Entity {
            times_eaten: if self.times_eaten < u32::MAX {
                (self.times_eaten + 1) as u32
            } else {
                self.times_eaten
            },
            ..self
        }
    }

    /// Takes a step in or out of radiation.
    pub fn irradiate(&mut self, in_zone: bool, death_threshold: Option<u32>)
        ensures
            *final(self) == old(self).irradiated(in_zone, death_threshold),
    {
        if self.body.is_alive && in_zone {
            if self.times_irradiated < u32::MAX {
                self.times_irradiated += 1;
            }
            match death_threshold {
                Some(threshold) => {
                    if self.times_irradiated >= threshold {
                        self.body.is_alive = false;
                    }
                },
                None => {},
            }
        }
    }

    /// Counts a meal.
    pub fn eat(&mut self)
        ensures
            *final(self) == old(self).fed(),
    {
        if self.times_eaten < u32::MAX {
            self.times_eaten += 1;
        }
    }
}

/// Where every cell is taken, none is free.
pub proof fn full_grid_has_no_free_cell(occupied: Seq<u64>, cells: int)
    requires
        cells <= u64::MAX,
        forall|c: u64| c < cells ==> #[trigger] occupied.contains(c),
    ensures
        free_below(occupied, cells) == 0,
    decreases cells,
{
    if cells > 0 {
        full_grid_has_no_free_cell(occupied, cells - 1);
    }
}

/// A cell that is not taken counts as free.
pub proof fn free_cell_is_counted(occupied: Seq<u64>, cells: int, cell: int)
    requires
        0 <= cell < cells,
        !occupied.contains(cell as u64),
    ensures
        free_below(occupied, cells) > 0,
    decreases cells,
{
    if cell < cells - 1 {
        free_cell_is_counted(occupied, cells - 1, cell);
    }
}

/// Taking a free cell leaves one free cell less.
pub proof fn taking_a_cell(occupied: Seq<u64>, cells: int, cell: u64)
    requires
        cells <= u64::MAX,
        !occupied.contains(cell),
    ensures
        free_below(occupied.push(cell), cells) == free_below(occupied, cells) - if cell < cells {
            1int
        } else {
            0int
        },
    decreases cells,
{
    if cells > 0 {
        taking_a_cell(occupied, cells - 1, cell);
        let last = (cells - 1) as u64;
        let after = occupied.push(cell);
        if occupied.contains(last) {
            let k = choose|k: int| 0 <= k < occupied.len() && occupied[k] == last;
            assert(after[k] == last);
        }
        if last == cell {
            assert(after[occupied.len() as int] == last);
        }
        if after.contains(last) && last != cell {
            let k = choose|k: int| 0 <= k < after.len() && after[k] == last;
            assert(occupied[k] == last);
        }
    }
}

/// Whether a cell is taken.
fn is_occupied(occupied_positions: &Vec<u64>, index: u64) -> (taken: bool)
    ensures
        taken == occupied_positions@.contains(index),
{
    let mut i: usize = 0;
    while i < occupied_positions.len()
        invariant
            i <= occupied_positions.len(),
            forall|k: int| 0 <= k < i ==> occupied_positions@[k] != index,
        decreases occupied_positions.len() - i,
    {
        if occupied_positions[i] == index {
            return true;
        }
        i += 1;
    }
    false
}

/// Finds a cell that is not taken. A bounded number of random cells is
/// tried first; if all of them are taken, the first free cell in row-major
/// order is returned. The search fails only on a grid without a free cell.
pub fn get_random_position(
    occupied_positions: &Vec<u64>,
    grid_width: u32,
    grid_height: u32,
) -> (result: Result<(u32, u32), SpawnError>)
    ensures
        match result {
            Ok(cell) => {
                &&& cell.0 < grid_width
                &&& cell.1 < grid_height
                &&& !occupied_positions@.contains(cell_index(cell.0, cell.1, grid_width) as u64)
            },
            Err(error) => error == SpawnError::NoSpace,
        },
        result is Err <==> free_below(occupied_positions@, grid_width * grid_height) == 0,
{
    let grid = GridConfig { width: grid_width, height: grid_height };
    let cells = grid.cell_count();
    if grid_width > 0 && grid_height > 0 {
        let mut attempt: u32 = 0;
        while attempt < RANDOM_PLACEMENT_ATTEMPTS
            invariant
                grid_width > 0,
                grid_height > 0,
                grid == (GridConfig { width: grid_width, height: grid_height }),
                cells == grid_width * grid_height,
            decreases RANDOM_PLACEMENT_ATTEMPTS - attempt,
        {
            let x = random_u32() % grid_width;
            let y = random_u32() % grid_height;
            let index = grid_coords_to_index(x, y, grid_width);
            if !is_occupied(occupied_positions, index) {
                proof {
                    cell_index_in_grid(x, y, grid);
                    free_cell_is_counted(occupied_positions@, cells as int, index as int);
                }
                return Ok((x, y));
            }
            attempt += 1;
        }
    }
    let mut index: u64 = 0;
    while index < cells
        invariant
            index <= cells,
            cells == grid_width * grid_height,
            forall|c: u64| c < index ==> #[trigger] occupied_positions@.contains(c),
        decreases cells - index,
    {
        if !is_occupied(occupied_positions, index) {
            let cell = grid_index_to_coords(index, grid_width, grid_height);
            proof {
                free_cell_is_counted(occupied_positions@, cells as int, index as int);
            }
            return Ok(cell);
        }
        index += 1;
    }
    proof {
        full_grid_has_no_free_cell(occupied_positions@, cells as int);
    }
    Err(SpawnError::NoSpace)
}

/// Puts a brain into a new body on a free cell, and marks the cell as
/// taken. It fails only on a grid without a free cell, and then marks
/// nothing.
pub fn spawn_entity(
    brain: Brain,
    occupied_positions: &mut Vec<u64>,
    grid_config: &GridConfig,
) -> (result: Result<Entity, SpawnError>)
    ensures
        match result {
            Ok(entity) => {
                &&& entity.brain == brain
                &&& entity.newborn(*grid_config)
                &&& entity.cell(*grid_config) < grid_config.cells()
                &&& !old(occupied_positions)@.contains(entity.cell(*grid_config))
                &&& final(occupied_positions)@ == old(occupied_positions)@.push(
                    entity.cell(*grid_config),
                )
                &&& free_below(final(occupied_positions)@, grid_config.cells()) == free_below(
                    old(occupied_positions)@,
                    grid_config.cells(),
                ) - 1
            },
            Err(error) => {
                &&& error == SpawnError::NoSpace
                &&& final(occupied_positions)@ == old(occupied_positions)@
            },
        },
        result is Err <==> free_below(old(occupied_positions)@, grid_config.cells()) == 0,
{
    match get_random_position(occupied_positions, grid_config.width, grid_config.height) {
        Ok((x, y)) => {
            let index = grid_coords_to_index(x, y, grid_config.width);
            let cells = grid_config.cell_count();
            proof {
                cell_index_in_grid(x, y, *grid_config);
                taking_a_cell(occupied_positions@, cells as int, index);
            }
            occupied_positions.push(index);
            let body = Body::new(x, y, random_below(WEIGHT_ONE as u64) as i64);
            Ok(Entity { brain, body, times_eaten: 0, times_irradiated: 0 })
        },
        Err(error) => Err(error),
    }
}

/// What `count` agents added to a population look like: the agents that
/// were there come first, unchanged, and each new agent is newborn and
/// stands on a cell that was not taken when it came; the cells taken grow
/// by the new agents' cells, in order.
pub open spec fn population_grown(
    old_entities: Seq<Entity>,
    old_occupied: Seq<u64>,
    entities: Seq<Entity>,
    occupied: Seq<u64>,
    count: int,
    grid: GridConfig,
) -> bool {
    &&& entities.len() == old_entities.len() + count
    &&& occupied.len() == old_occupied.len() + count
    &&& forall|k: int| 0 <= k < old_entities.len() ==> #[trigger] entities[k] == old_entities[k]
    &&& forall|k: int| 0 <= k < old_occupied.len() ==> #[trigger] occupied[k] == old_occupied[k]
    &&& forall|k: int|
        0 <= k < count ==> {
            let entity = #[trigger] entities[old_entities.len() + k];
            &&& entity.newborn(grid)
            &&& entity.cell(grid) < grid.cells()
            &&& occupied[old_occupied.len() + k] == entity.cell(grid)
            &&& !occupied.take(old_occupied.len() + k).contains(entity.cell(grid))
        }
}

/// The agents that are handed to `spawn_entities`, if any.
pub open spec fn existing_agents(existing: Option<SpawnedEntities>) -> Seq<Entity> {
    match existing {
        Some(population) => population.0@,
        None => Seq::empty(),
    }
}

/// The cells that are taken when `spawn_entities` starts.
pub open spec fn existing_cells(existing: Option<SpawnedEntities>) -> Seq<u64> {
    match existing {
        Some(population) => population.1@,
        None => Seq::empty(),
    }
}

/// Adds `num_entities` agents with freshly generated genomes to a
/// population, each on a free cell of its own. It fails if and only if the
/// grid has fewer free cells than agents to add.
pub fn spawn_entities(
    grid_config: &GridConfig,
    network_config: &NeuralNetworkConfig,
    num_entities: u32,
    existing_entities: Option<SpawnedEntities>,
) -> (result: Result<SpawnedEntities, SpawnError>)
    requires
        network_config.supports_generation(),
    ensures
        match result {
            Ok(spawned) => {
                &&& population_grown(
                    existing_agents(existing_entities),
                    existing_cells(existing_entities),
                    spawned.0@,
                    spawned.1@,
                    num_entities as int,
                    *grid_config,
                )
                &&& forall|k: int|
                    existing_agents(existing_entities).len() <= k < spawned.0@.len() ==> (
                    #[trigger] spawned.0@[k]).randomized(*network_config)
            },
            Err(error) => error == SpawnError::NoSpace,
        },
        result is Err <==> free_below(existing_cells(existing_entities), grid_config.cells())
            < num_entities,
{
    let (mut entities, mut used_positions) = match existing_entities {
        Some(existing) => existing,
        None => (Vec::new(), Vec::new()),
    };
    let ghost old_entities = entities@;
    let ghost old_occupied = used_positions@;
    let mut i: u32 = 0;
    while i < num_entities
        invariant
            network_config.supports_generation(),
            old_entities == existing_agents(existing_entities),
            old_occupied == existing_cells(existing_entities),
            i <= num_entities,
            entities@.len() == old_entities.len() + i,
            used_positions@.len() == old_occupied.len() + i,
            forall|k: int| 0 <= k < old_entities.len() ==> #[trigger] entities@[k] == old_entities[k],
            forall|k: int|
                0 <= k < old_occupied.len() ==> #[trigger] used_positions@[k] == old_occupied[k],
            forall|k: int|
                0 <= k < i ==> {
                    let entity = #[trigger] entities@[old_entities.len() + k];
                    &&& entity.newborn(*grid_config)
                    &&& entity.randomized(*network_config)
                    &&& entity.cell(*grid_config) < grid_config.cells()
                    &&& used_positions@[old_occupied.len() + k] == entity.cell(*grid_config)
                    &&& !used_positions@.take(old_occupied.len() + k).contains(
                        entity.cell(*grid_config),
                    )
                },
            free_below(used_positions@, grid_config.cells()) == free_below(
                old_occupied,
                grid_config.cells(),
            ) - i,
        decreases num_entities - i,
    {
        let genome = random_genome(network_config);
        let brain = Brain::from_genome(genome);
        let ghost occupied_before = used_positions@;
        let ghost entities_before = entities@;
        match spawn_entity(brain, &mut used_positions, grid_config) {
            Ok(entity) => {
                entities.push(entity);
                proof {
                    assert(used_positions@.take(old_occupied.len() + i) =~= occupied_before);
                    assert forall|k: int| 0 <= k < i implies {
                        let earlier = #[trigger] entities@[old_entities.len() + k];
                        !used_positions@.take(old_occupied.len() + k).contains(
                            earlier.cell(*grid_config),
                        )
                    } by {
                        assert(entities@[old_entities.len() + k] == entities_before[old_entities.len()
                            + k]);
                        assert(used_positions@.take(old_occupied.len() + k)
                            =~= occupied_before.take(old_occupied.len() + k));
                    }
                }
            },
            Err(error) => {
                return Err(error);
            },
        }
        i += 1;
    }
    proof {
        assert forall|k: int| old_entities.len() <= k < entities@.len() implies (
        #[trigger] entities@[k]).randomized(*network_config) by {
            assert(entities@[old_entities.len() + (k - old_entities.len())].randomized(
                *network_config,
            ));
        }
    }
    Ok((entities, used_positions))
}

/// Agents stand apart: each is newborn on a cell of the grid, the cells
/// taken are theirs in order, and none stands where an earlier one does.
pub open spec fn placed(entities: Seq<Entity>, occupied: Seq<u64>, grid: GridConfig) -> bool {
    &&& occupied.len() == entities.len()
    &&& forall|k: int|
        0 <= k < entities.len() ==> {
            let entity = #[trigger] entities[k];
            &&& entity.newborn(grid)
            &&& entity.cell(grid) < grid.cells()
            &&& occupied[k] == entity.cell(grid)
            &&& !occupied.take(k).contains(entity.cell(grid))
        }
}

/// Place in a generation of a parent's child.
pub open spec fn child_slot(parent: int, child: int, child_count: int) -> int {
    parent * child_count + child
}

/// The agents that breed. Where the population is limited, they are the
/// agents that have eaten most, as many as can have their children within
/// the start count, and none where agents have no children; else they are
/// all the selected agents.
pub open spec fn breeders(selected: Seq<Entity>, limit_population: bool, config: EntityConfig) -> Seq<
    Entity,
> {
    if limit_population {
        let by_meals = ranked(selected, Ranking::TimesEaten);
        let most = if config.child_count == 0 {
            0
        } else {
            config.start_count as int / config.child_count as int
        };
        if most < by_meals.len() {
            by_meals.take(most)
        } else {
            by_meals
        }
    } else {
        selected
    }
}

/// A child's genome is its parent's, exact or with one mutation event.
pub open spec fn inherits(child: Seq<Gene>, parent: Seq<Gene>, magnitude: u32) -> bool {
    child == parent || mutated_once(child, parent, magnitude)
}

/// A child of a parent: its brain decodes a genome that it inherits. At a
/// mutation rate of nothing the genome is the parent's as it is; at a rate
/// of a whole or more it is the parent's with one mutation event, unless the
/// parent has no genes.
pub open spec fn child_of(child: Entity, parent: Entity, magnitude: u32, mutation_rate: u32) -> bool {
    &&& child.brain@ == decode(child.brain.genome@)
    &&& child.brain@.well_formed()
    &&& inherits(child.brain.genome@, parent.brain.genome@, magnitude)
    &&& mutation_rate == 0 ==> child.brain.genome@ == parent.brain.genome@
    &&& mutation_rate >= RATE_ONE && parent.brain.genome@.len() > 0 ==> mutated_once(
        child.brain.genome@,
        parent.brain.genome@,
        magnitude,
    )
}

/// Size of the generation that a number of parents leads to: their
/// children, filled up to the start count where the population is
/// supplemented.
pub open spec fn generation_size(parents: int, config: EntityConfig, supplement_population: bool) -> int {
    let children = parents * config.child_count;
    if supplement_population && children < config.start_count {
        config.start_count as int
    } else {
        children
    }
}

/// A supplemented generation has exactly the start count of agents,
/// however many agents were selected, where their children do not exceed
/// it; they never do where the population is limited.
pub proof fn supplemented_generation_has_start_count(
    selected: Seq<Entity>,
    config: EntityConfig,
    limit_population: bool,
)
    requires
        limit_population || selected.len() * config.child_count <= config.start_count,
    ensures
        generation_size(
            breeders(selected, limit_population, config).len() as int,
            config,
            true,
        ) == config.start_count,
{
    let parents = breeders(selected, limit_population, config);
    if limit_population {
        ranked_is_a_permutation(selected, Ranking::TimesEaten);
        if config.child_count == 0 {
            assert(parents.len() * config.child_count == 0) by (nonlinear_arith)
                requires
                    config.child_count == 0,
            ;
        } else {
            let most = config.start_count as int / config.child_count as int;
            vstd::arithmetic::div_mod::lemma_fundamental_div_mod(
                config.start_count as int,
                config.child_count as int,
            );
            assert(parents.len() <= most);
            assert(parents.len() * config.child_count <= config.start_count) by (nonlinear_arith)
                requires
                    0 <= parents.len() <= most,
                    config.child_count > 0,
                    config.child_count * most <= config.start_count,
            ;
        }
    }
}

/// What the generation bred from selected agents looks like. The children
/// come first, parent by parent; agents with fresh random genomes follow
/// where the generation is filled up. All are newborn, and no two share a
/// cell.
pub open spec fn bred_from(
    generation: Seq<Entity>,
    selected: Seq<Entity>,
    grid: GridConfig,
    entity_config: EntityConfig,
    network_config: NeuralNetworkConfig,
    supplement_population: bool,
    limit_population: bool,
) -> bool {
    let parents = breeders(selected, limit_population, entity_config);
    let children = parents.len() * entity_config.child_count;
    &&& generation.len() == generation_size(
        parents.len() as int,
        entity_config,
        supplement_population,
    )
    &&& forall|p: int, j: int|
        0 <= p < parents.len() && 0 <= j < entity_config.child_count ==> child_of(
            #[trigger] generation[child_slot(p, j, entity_config.child_count as int)],
            parents[p],
            entity_config.mutation_magnitude,
            network_config.mutation_rate,
        )
    &&& forall|k: int|
        children <= k < generation.len() ==> (#[trigger] generation[k]).randomized(network_config)
    &&& forall|k: int| 0 <= k < generation.len() ==> (#[trigger] generation[k]).newborn(grid)
    &&& forall|a: int, b: int|
        0 <= a < b < generation.len() ==> (#[trigger] generation[a]).cell(grid) != (
        #[trigger] generation[b]).cell(grid)
}

/// Every agent of a bred generation has a well-formed brain.
pub proof fn bred_brains_are_well_formed(
    generation: Seq<Entity>,
    selected: Seq<Entity>,
    grid: GridConfig,
    entity_config: EntityConfig,
    network_config: NeuralNetworkConfig,
    supplement_population: bool,
    limit_population: bool,
)
    requires
        bred_from(
            generation,
            selected,
            grid,
            entity_config,
            network_config,
            supplement_population,
            limit_population,
        ),
    ensures
        forall|k: int| 0 <= k < generation.len() ==> (#[trigger] generation[k]).brain@.well_formed(),
{
    let parents = breeders(selected, limit_population, entity_config);
    let child_count = entity_config.child_count as int;
    let children = parents.len() * child_count;
    assert forall|k: int| 0 <= k < generation.len() implies (
    #[trigger] generation[k]).brain@.well_formed() by {
        if k < children {
            assert(child_count > 0) by (nonlinear_arith)
                requires
                    0 <= k < parents.len() * child_count,
                    0 <= child_count,
            ;
            let p = k / child_count;
            let j = k % child_count;
            vstd::arithmetic::div_mod::lemma_fundamental_div_mod(k, child_count);
            assert(p < parents.len()) by (nonlinear_arith)
                requires
                    k < parents.len() * child_count,
                    k == child_count * p + j,
                    0 <= j,
                    child_count > 0,
            ;
            assert(0 <= p) by (nonlinear_arith)
                requires
                    0 <= k,
                    k == child_count * p + j,
                    j < child_count,
                    child_count > 0,
            ;
            assert(child_slot(p, j, child_count) == k) by (nonlinear_arith)
                requires
                    k == child_count * p + j,
            ;
            assert(child_of(
                generation[child_slot(p, j, child_count)],
                parents[p],
                entity_config.mutation_magnitude,
                network_config.mutation_rate,
            ));
        }
    }
}

/// Where no cell is taken, every cell is free.
pub proof fn empty_grid_is_free(cells: int)
    requires
        0 <= cells,
    ensures
        free_below(Seq::<u64>::empty(), cells) == cells,
    decreases cells,
{
    if cells > 0 {
        empty_grid_is_free(cells - 1);
    }
}

/// A population that has grown from agents that stood apart stands apart.
pub proof fn grown_population_is_placed(
    old_entities: Seq<Entity>,
    old_occupied: Seq<u64>,
    entities: Seq<Entity>,
    occupied: Seq<u64>,
    count: int,
    grid: GridConfig,
)
    requires
        0 <= count,
        placed(old_entities, old_occupied, grid),
        population_grown(old_entities, old_occupied, entities, occupied, count, grid),
    ensures
        placed(entities, occupied, grid),
{
    assert forall|k: int| 0 <= k < entities.len() implies {
        let entity = #[trigger] entities[k];
        &&& entity.newborn(grid)
        &&& entity.cell(grid) < grid.cells()
        &&& occupied[k] == entity.cell(grid)
        &&& !occupied.take(k).contains(entity.cell(grid))
    } by {
        if k < old_entities.len() {
            assert(entities[k] == old_entities[k]);
            assert(occupied[k] == old_occupied[k]);
            assert(occupied.take(k) =~= old_occupied.take(k));
        } else {
            let shifted = k - old_entities.len();
            assert(entities[old_entities.len() + shifted] == entities[k]);
        }
    }
}

/// No two agents that stand apart share a cell.
pub proof fn placed_agents_are_apart(entities: Seq<Entity>, occupied: Seq<u64>, grid: GridConfig)
    requires
        placed(entities, occupied, grid),
    ensures
        forall|a: int, b: int|
            0 <= a < b < entities.len() ==> (#[trigger] entities[a]).cell(grid) != (
            #[trigger] entities[b]).cell(grid),
{
    assert forall|a: int, b: int| 0 <= a < b < entities.len() implies (#[trigger] entities[a]).cell(
        grid,
    ) != (#[trigger] entities[b]).cell(grid) by {
        assert(occupied.take(b)[a] == entities[a].cell(grid));
    }
}

proof fn lemma_slot_in_row(parent: int, child: int, child_count: int, parents: int)
    requires
        0 <= parent < parents,
        0 <= child < child_count,
    ensures
        0 <= child_slot(parent, child, child_count) < parents * child_count,
        child_slot(parent, child, child_count) < (parent + 1) * child_count,
        (parent + 1) * child_count == parent * child_count + child_count,
        0 <= parent * child_count,
{
    assert(parent * child_count + child < (parent + 1) * child_count && (parent + 1) * child_count
        == parent * child_count + child_count && 0 <= parent * child_count && (parent + 1)
        * child_count <= parents * child_count) by (nonlinear_arith)
        requires
            0 <= parent < parents,
            0 <= child < child_count,
    ;
}

/// Breeds the next generation. Each parent has `child_count` children, one
/// after the other; a child's genome is its parent's, mutated once with the
/// configured probability. Where the population is supplemented and the
/// children are fewer than the start count, agents with fresh random
/// genomes fill the generation up. Every agent gets a cell of its own. The
/// call fails if and only if the grid has fewer cells than the generation
/// has agents.
pub fn spawn_next_generation(
    grid_config: &GridConfig,
    entity_config: &EntityConfig,
    network_config: &NeuralNetworkConfig,
    supplement_population: bool,
    limit_population: bool,
    selected: Vec<Entity>,
) -> (result: Result<Vec<Entity>, SpawnError>)
    requires
        supplement_population ==> network_config.supports_generation(),
    ensures
        match result {
            Ok(generation) => bred_from(
                generation@,
                selected@,
                *grid_config,
                *entity_config,
                *network_config,
                supplement_population,
                limit_population,
            ),
            Err(error) => error == SpawnError::NoSpace,
        },
        result is Err <==> generation_size(
            breeders(selected@, limit_population, *entity_config).len() as int,
            *entity_config,
            supplement_population,
        ) > grid_config.cells(),
{
    let cells = grid_config.cell_count();
    let child_count = entity_config.child_count;
    let parents = if limit_population {
        let mut by_meals = rank_entities(selected, Ranking::TimesEaten);
        proof {
            ranked_is_a_permutation(selected@, Ranking::TimesEaten);
        }
        let max_population: u32 = if child_count == 0 {
            0
        } else {
            entity_config.start_count / child_count
        };
        if (max_population as u64) < by_meals.len() as u64 {
            by_meals.truncate(max_population as usize);
            assert(by_meals@ =~= ranked(selected@, Ranking::TimesEaten).take(max_population as int));
        }
        by_meals
    } else {
        selected
    };
    assert(parents@ == breeders(selected@, limit_population, *entity_config));
    let mut next_generation: Vec<Entity> = Vec::new();
    let mut used_positions: Vec<u64> = Vec::new();
    proof {
        empty_grid_is_free(cells as int);
    }
    let mut p: usize = 0;
    while p < parents.len()
        invariant
            p <= parents.len(),
            parents@ == breeders(selected@, limit_population, *entity_config),
            child_count == entity_config.child_count,
            cells == grid_config.cells(),
            next_generation@.len() == p * child_count,
            placed(next_generation@, used_positions@, *grid_config),
            free_below(used_positions@, cells as int) == cells - next_generation@.len(),
            forall|q: int, j: int|
                0 <= q < p && 0 <= j < child_count ==> child_of(
                    #[trigger] next_generation@[child_slot(q, j, child_count as int)],
                    parents@[q],
                    entity_config.mutation_magnitude,
                    network_config.mutation_rate,
                ),
        ensures
            p == parents.len(),
            next_generation@.len() == p * child_count,
            placed(next_generation@, used_positions@, *grid_config),
            free_below(used_positions@, cells as int) == cells - next_generation@.len(),
            forall|q: int, j: int|
                0 <= q < p && 0 <= j < child_count ==> child_of(
                    #[trigger] next_generation@[child_slot(q, j, child_count as int)],
                    parents@[q],
                    entity_config.mutation_magnitude,
                    network_config.mutation_rate,
                ),
        decreases parents.len() - p,
    {
        let ghost base = next_generation@.len() as int;
        let mut j: u32 = 0;
        while j < child_count
            invariant
                p < parents.len(),
                parents@ == breeders(selected@, limit_population, *entity_config),
                j <= child_count,
                child_count == entity_config.child_count,
                cells == grid_config.cells(),
                base == p * child_count,
                next_generation@.len() == base + j,
                placed(next_generation@, used_positions@, *grid_config),
                free_below(used_positions@, cells as int) == cells - next_generation@.len(),
                forall|q: int, i: int|
                    0 <= q < p && 0 <= i < child_count ==> child_of(
                        #[trigger] next_generation@[child_slot(q, i, child_count as int)],
                        parents@[q],
                        entity_config.mutation_magnitude,
                        network_config.mutation_rate,
                    ),
                forall|i: int|
                    0 <= i < j ==> child_of(
                        #[trigger] next_generation@[base + i],
                        parents@[p as int],
                        entity_config.mutation_magnitude,
                        network_config.mutation_rate,
                    ),
            decreases child_count - j,
        {
            let roll = random_below(RATE_ONE as u64);
            let genome = child_genome(
                &parents[p].brain.genome,
                roll,
                network_config.mutation_rate,
                entity_config.mutation_magnitude,
            );
            let brain = Brain::from_genome(genome);
            let ghost before = next_generation@;
            let ghost occupied_before = used_positions@;
            match spawn_entity(brain, &mut used_positions, grid_config) {
                Ok(entity) => {
                    next_generation.push(entity);
                    proof {
                        assert(used_positions@.take(before.len() as int) =~= occupied_before);
                        assert forall|k: int| 0 <= k < next_generation@.len() implies {
                            let agent = #[trigger] next_generation@[k];
                            &&& agent.newborn(*grid_config)
                            &&& agent.cell(*grid_config) < grid_config.cells()
                            &&& used_positions@[k] == agent.cell(*grid_config)
                            &&& !used_positions@.take(k).contains(agent.cell(*grid_config))
                        } by {
                            if k < before.len() {
                                assert(next_generation@[k] == before[k]);
                                assert(used_positions@.take(k) =~= occupied_before.take(k));
                            }
                        }
                        assert forall|q: int, i: int|
                            0 <= q < p && 0 <= i < child_count implies child_of(
                            #[trigger] next_generation@[child_slot(q, i, child_count as int)],
                            parents@[q],
                            entity_config.mutation_magnitude,
                            network_config.mutation_rate,
                        ) by {
                            lemma_slot_in_row(q, i, child_count as int, p as int);
                            assert(next_generation@[child_slot(q, i, child_count as int)]
                                == before[child_slot(q, i, child_count as int)]);
                        }
                        assert forall|i: int| 0 <= i < j + 1 implies child_of(
                            #[trigger] next_generation@[base + i],
                            parents@[p as int],
                            entity_config.mutation_magnitude,
                            network_config.mutation_rate,
                        ) by {
                            if i < j {
                                assert(next_generation@[base + i] == before[base + i]);
                            }
                        }
                    }
                },
                Err(error) => {
                    proof {
                        lemma_slot_in_row(
                            p as int,
                            j as int,
                            child_count as int,
                            parents@.len() as int,
                        );
                    }
                    return Err(error);
                },
            }
            j += 1;
        }
        proof {
            assert((p + 1) * child_count == p * child_count + child_count) by (nonlinear_arith);
            assert forall|q: int, i: int| 0 <= q < p + 1 && 0 <= i < child_count implies child_of(
                #[trigger] next_generation@[child_slot(q, i, child_count as int)],
                parents@[q],
                entity_config.mutation_magnitude,
                network_config.mutation_rate,
            ) by {
                if q == p {
                    assert(child_slot(q, i, child_count as int) == base + i);
                }
            }
        }
        p += 1;
    }
    let ghost children = next_generation@.len() as int;
    if !supplement_population || next_generation.len() as u64 >= entity_config.start_count as u64 {
        proof {
            placed_agents_are_apart(next_generation@, used_positions@, *grid_config);
        }
        return Ok(next_generation);
    }
    let num_remaining: u32 = entity_config.start_count - next_generation.len() as u32;
    let ghost bred = next_generation@;
    let ghost taken = used_positions@;
    match spawn_entities(
        grid_config,
        network_config,
        num_remaining,
        Some((next_generation, used_positions)),
    ) {
        Ok((generation, occupied)) => {
            proof {
                grown_population_is_placed(
                    bred,
                    taken,
                    generation@,
                    occupied@,
                    num_remaining as int,
                    *grid_config,
                );
                placed_agents_are_apart(generation@, occupied@, *grid_config);
                assert forall|q: int, i: int|
                    0 <= q < parents@.len() && 0 <= i < child_count implies child_of(
                    #[trigger] generation@[child_slot(q, i, child_count as int)],
                    parents@[q],
                    entity_config.mutation_magnitude,
                    network_config.mutation_rate,
                ) by {
                    lemma_slot_in_row(q, i, child_count as int, parents@.len() as int);
                    assert(generation@[child_slot(q, i, child_count as int)] == bred[child_slot(
                        q,
                        i,
                        child_count as int,
                    )]);
                }
            }
            Ok(generation)
        },
        Err(error) => Err(error),
    }
}

} // verus!
