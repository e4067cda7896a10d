use vstd::prelude::*;

use crate::body::{direction_of, moved};
use crate::entity::{
    bred_brains_are_well_formed, bred_from, breeders, generation_size, spawn_entities,
    spawn_next_generation, Entity, SpawnError,
};
use crate::entity_config::EntityConfig;
use crate::grid_config::GridConfig;
use crate::neural_network::brain::{decision, BrainView};
use crate::neural_network::output_neuron::OutputNeuron;
use crate::neural_network_config::NeuralNetworkConfig;
use crate::render_config::RenderConfig;
use crate::scenario::scenario::{food_consumed, in_rad_zone, reset_of, Scenario};
use crate::selection::{breeding_pool, select_breeders, select_survivors, survival};

verus! {

/// A simulation: a population on a grid, in a scenario, at a step of a
/// generation.
#[derive(Debug)]
pub struct LifeSim {
    pub entities: Vec<Entity>,
    pub sim_current_step: usize,
    pub sim_generation_number: u32,
    pub scenario: Scenario,
    pub grid_config: GridConfig,
    pub render_config: RenderConfig,
    pub entity_config: EntityConfig,
    pub network_config: NeuralNetworkConfig,
}

/// How a generation ended.
#[derive(Clone, Copy, Debug, PartialEq, Eq, Structural)]
pub struct GenerationReport {
    /// Number of the generation that ended.
    pub generation: u32,
    /// Agents that bred.
    pub breeders: usize,
    /// Agents that the generation started with.
    pub population: usize,
}

/// What the end of a step brought.
#[derive(Clone, Copy, Debug, PartialEq, Eq, Structural)]
pub enum StepOutcome {
    /// The generation goes on with its next step.
    Advanced,
    /// The generation ended, and the next one stands at its first step.
    NewGeneration(GenerationReport),
}

/// The number after a generation number; the count stops at the greatest
/// number it can hold.
pub open spec fn following(generation: u32) -> u32 {
    if generation < u32::MAX {
        (generation + 1) as u32
    } else {
        generation
    }
}

impl LifeSim {
    /// The scenario is well formed and laid out for the grid, fresh
    /// genomes can be generated, and every agent stands on the grid with a
    /// well-formed brain.
    pub open spec fn well_formed(self) -> bool {
        &&& self.scenario.well_formed()
        &&& self.scenario.grid_width == self.grid_config.width
        &&& self.scenario.grid_height == self.grid_config.height
        &&& self.network_config.supports_generation()
        &&& forall|k: int|
            0 <= k < self.entities@.len() ==> {
                let entity = #[trigger] self.entities@[k];
                &&& entity.body.x < self.grid_config.width
                &&& entity.body.y < self.grid_config.height
                &&& entity.brain@.well_formed()
            }
    }

    /// Tests whether the simulation is well formed.
    pub fn is_well_formed(&self) -> (answer: bool)
        ensures
            answer == self.well_formed(),
    {
        if !self.scenario.is_well_formed() || self.scenario.grid_width != self.grid_config.width
            || self.scenario.grid_height != self.grid_config.height
            || !self.network_config.can_generate() {
            return false;
        }
        let mut k: usize = 0;
        while k < self.entities.len()
            invariant
                k <= self.entities.len(),
                forall|j: int|
                    0 <= j < k ==> {
                        let entity = #[trigger] self.entities@[j];
                        &&& entity.body.x < self.grid_config.width
                        &&& entity.body.y < self.grid_config.height
                        &&& entity.brain@.well_formed()
                    },
            decreases self.entities.len() - k,
        {
            let entity = &self.entities[k];
            if entity.body.x >= self.grid_config.width || entity.body.y >= self.grid_config.height
                || !entity.brain.is_well_formed() {
                return false;
            }
            k += 1;
        }
        true
    }

    /// The agents that would breed under a scenario: the survivors with
    /// the best scores.
    pub open spec fn pool_under(self, scenario: Scenario) -> Seq<Entity> {
        breeding_pool(scenario, self.entity_config, self.entities@.filter(survival(scenario)))
    }

    /// The agents that breed at the end of a generation.
    pub open spec fn breeding_agents(self) -> Seq<Entity> {
        self.pool_under(self.scenario)
    }

    /// Size of the generation that follows.
    pub open spec fn next_generation_size(self) -> int {
        generation_size(
            breeders(
                self.breeding_agents(),
                self.scenario.limit_population,
                self.entity_config,
            ).len() as int,
            self.entity_config,
            self.scenario.supplement_population,
        )
    }

    /// Everything but the agents, the step and the generation number is as
    /// it was.
    pub open spec fn same_setting(self, before: LifeSim) -> bool {
        &&& self.scenario == before.scenario
        &&& self.grid_config == before.grid_config
        &&& self.render_config == before.render_config
        &&& self.entity_config == before.entity_config
        &&& self.network_config == before.network_config
    }

    /// Starts a simulation at the first step of the first generation, with
    /// `start_count` agents with fresh random genomes, each on a cell of its
    /// own. It fails if and only if the grid has fewer cells than that.
    pub fn new(
        scenario: Scenario,
        grid_config: GridConfig,
        render_config: RenderConfig,
        entity_config: EntityConfig,
        network_config: NeuralNetworkConfig,
    ) -> (result: Result<Self, SpawnError>)
        requires
            network_config.supports_generation(),
        ensures
            match result {
                Ok(sim) => {
                    &&& sim.scenario == scenario
                    &&& sim.grid_config == grid_config
                    &&& sim.render_config == render_config
                    &&& sim.entity_config == entity_config
                    &&& sim.network_config == network_config
                    &&& sim.sim_current_step == 0
                    &&& sim.sim_generation_number == 0
                    &&& sim.entities@.len() == entity_config.start_count
                    &&& forall|k: int|
                        0 <= k < sim.entities@.len() ==> (#[trigger] sim.entities@[k]).newborn(
                            grid_config,
                        ) && sim.entities@[k].randomized(network_config)
                    &&& forall|a: int, b: int|
                        0 <= a < b < sim.entities@.len() ==> (#[trigger] sim.entities@[a]).cell(
                            grid_config,
                        ) != (#[trigger] sim.entities@[b]).cell(grid_config)
                    &&& (scenario.well_formed() && scenario.grid_width == grid_config.width
                        && scenario.grid_height == grid_config.height) ==> sim.well_formed()
                },
                Err(error) => error == SpawnError::NoSpace,
            },
            result is Err <==> entity_config.start_count > grid_config.cells(),
    {
        proof {
            crate::entity::empty_grid_is_free(grid_config.cells());
            assert(0 <= grid_config.cells()) by (nonlinear_arith)
                requires
                    grid_config.cells() == grid_config.width * grid_config.height,
            ;
        }
        match spawn_entities(&grid_config, &network_config, entity_config.start_count, None) {
            Ok((entities, occupied)) => {
                proof {
                    crate::entity::grown_population_is_placed(
                        Seq::<Entity>::empty(),
                        Seq::<u64>::empty(),
                        entities@,
                        occupied@,
                        entity_config.start_count as int,
                        grid_config,
                    );
                    crate::entity::placed_agents_are_apart(entities@, occupied@, grid_config);
                }
                Ok(
                    Self {
                        scenario,
                        entity_config,
                        grid_config,
                        render_config,
                        network_config,
                        entities,
                        sim_current_step: 0,
                        sim_generation_number: 0,
                    },
                )
            },
            Err(error) => Err(error),
        }
    }

    /// Ends the generation: the survivors with the best scores breed the
    /// next generation, which stands at its first step. It fails if and
    /// only if the grid has fewer cells than the next generation has
    /// agents; the population is then empty.
    pub fn start_new_generation(&mut self) -> (result: Result<GenerationReport, SpawnError>)
        requires
            old(self).well_formed(),
        ensures
            final(self).same_setting(*old(self)),
            final(self).sim_current_step == 0,
            final(self).sim_generation_number == following(old(self).sim_generation_number),
            match result {
                Ok(report) => {
                    &&& final(self).well_formed()
                    &&& bred_from(
                        final(self).entities@,
                        old(self).breeding_agents(),
                        old(self).grid_config,
                        old(self).entity_config,
                        old(self).network_config,
                        old(self).scenario.supplement_population,
                        old(self).scenario.limit_population,
                    )
                    &&& report.generation == old(self).sim_generation_number
                    &&& report.breeders == old(self).breeding_agents().len()
                    &&& report.population == old(self).entities@.len()
                },
                Err(error) => error == SpawnError::NoSpace && final(self).entities@.len() == 0,
            },
            result is Err <==> old(self).next_generation_size() > old(self).grid_config.cells(),
    {
        let population = self.entities.len();
        let generation = self.sim_generation_number;
        let mut entities: Vec<Entity> = Vec::new();
        std::mem::swap(&mut entities, &mut self.entities);
        let survivors = select_survivors(&self.scenario, entities);
        let selected = select_breeders(&self.scenario, &self.entity_config, survivors);
        let breeding = selected.len();
        if self.sim_generation_number < u32::MAX {
            self.sim_generation_number += 1;
        }
        self.sim_current_step = 0;
        match spawn_next_generation(
            &self.grid_config,
            &self.entity_config,
            &self.network_config,
            self.scenario.supplement_population,
            self.scenario.limit_population,
            selected,
        ) {
            Ok(next_generation) => {
                proof {
                    bred_brains_are_well_formed(
                        next_generation@,
                        selected@,
                        self.grid_config,
                        self.entity_config,
                        self.network_config,
                        self.scenario.supplement_population,
                        self.scenario.limit_population,
                    );
                }
                self.entities = next_generation;
                Ok(GenerationReport { generation, breeders: breeding, population })
            },
            Err(error) => Err(error),
        }
    }

    /// Lets the radiation of the current step work on an agent, and says
    /// whether the agent lives on.
    pub fn expose(&mut self, index: usize) -> (lives: bool)
        requires
            old(self).well_formed(),
            index < old(self).entities@.len(),
        ensures
            final(self).well_formed(),
            final(self).same_setting(*old(self)),
            final(self).sim_current_step == old(self).sim_current_step,
            final(self).sim_generation_number == old(self).sim_generation_number,
            final(self).entities@ == old(self).entities@.update(
                index as int,
                old(self).entities@[index as int].irradiated(
                    old(self).scenario.radiation matches Some(radiation) && in_rad_zone(
                        radiation,
                        (
                            old(self).entities@[index as int].body.x,
                            old(self).entities@[index as int].body.y,
                        ),
                        old(self).sim_current_step,
                    ),
                    match old(self).scenario.radiation {
                        Some(radiation) => radiation.death_threshold,
                        None => None,
                    },
                ),
            ),
            lives == final(self).entities@[index as int].body.is_alive,
    {
        let point = (self.entities[index].body.x, self.entities[index].body.y);
        let (in_zone, death_threshold) = match &self.scenario.radiation {
            Some(radiation) => (
                self.scenario.is_point_in_rad_zone(point, self.sim_current_step),
                radiation.death_threshold,
            ),
            None => (false, None),
        };
        let ghost before = self.entities@;
        let mut entity = self.entities.remove(index);
        entity.irradiate(in_zone, death_threshold);
        let lives = entity.body.is_alive;
        self.entities.insert(index, entity);
        proof {
            assert(self.entities@ =~= before.update(
                index as int,
                before[index as int].irradiated(in_zone, death_threshold),
            ));
        }
        lives
    }

    /// Lets an agent eat the food on its cell, if there is any.
    pub fn feed(&mut self, index: usize) -> (has_eaten: bool)
        requires
            old(self).well_formed(),
            index < old(self).entities@.len(),
        ensures
            final(self).well_formed(),
            final(self).grid_config == old(self).grid_config,
            final(self).render_config == old(self).render_config,
            final(self).entity_config == old(self).entity_config,
            final(self).network_config == old(self).network_config,
            final(self).sim_current_step == old(self).sim_current_step,
            final(self).sim_generation_number == old(self).sim_generation_number,
            has_eaten == (old(self).scenario.food matches Some(food) && food.food_map@[crate::grid_config::cell_index(
                old(self).entities@[index as int].body.x,
                old(self).entities@[index as int].body.y,
                old(self).grid_config.width,
            )]),
            has_eaten ==> food_consumed(
                old(self).scenario,
                final(self).scenario,
                (old(self).entities@[index as int].body.x, old(self).entities@[index as int].body.y),
            ) && final(self).entities@ == old(self).entities@.update(
                index as int,
                old(self).entities@[index as int].fed(),
            ),
            !has_eaten ==> final(self).scenario == old(self).scenario && final(self).entities
                == old(self).entities,
    {
        let point = (self.entities[index].body.x, self.entities[index].body.y);
        let has_food = match &self.scenario.food {
            Some(food) => self.scenario.is_food_at_point(point),
            None => false,
        };
        if has_food {
            self.scenario.consume_food_at_point(point);
            let ghost before = self.entities@;
            let mut entity = self.entities.remove(index);
            entity.eat();
            self.entities.insert(index, entity);
            proof {
                assert(self.entities@ =~= before.update(index as int, before[index as int].fed()));
            }
        }
        has_food
    }

    /// Lets an agent decide on an action from the final signals of its
    /// neurons, and carry the action out.
    pub fn act(&mut self, index: usize, signals: &Vec<i64>) -> (action: OutputNeuron)
        requires
            old(self).well_formed(),
            index < old(self).entities@.len(),
            signals@.len() == old(self).entities@[index as int].brain@.neurons.len(),
        ensures
            final(self).well_formed(),
            final(self).same_setting(*old(self)),
            final(self).sim_current_step == old(self).sim_current_step,
            final(self).sim_generation_number == old(self).sim_generation_number,
            action == decision(old(self).entities@[index as int].brain@, signals@),
            final(self).entities@.len() == old(self).entities@.len(),
            forall|k: int|
                0 <= k < old(self).entities@.len() && k != index ==> #[trigger] final(self).entities@[k] == old(self).entities@[k],
            ({
                let before = old(self).entities@[index as int];
                let after = final(self).entities@[index as int];
                &&& after.brain@ == (BrainView { previous_move: action, ..before.brain@ })
                &&& after.times_eaten == before.times_eaten
                &&& after.times_irradiated == before.times_irradiated
                &&& exists|draw: u32|
                    after.body == moved(
                        before.body,
                        #[trigger] direction_of(action, draw),
                        old(self).grid_config,
                    )
            }),
    {
        let ghost before = self.entities@;
        let mut entity = self.entities.remove(index);
        let action = entity.brain.decide(signals);
        let ghost body = entity.body;
        entity.body.update(action, &self.grid_config);
        proof {
            if action != OutputNeuron::MoveRandom {
                assert(direction_of(action, 0) == action);
                assert(entity.body == moved(body, direction_of(action, 0), self.grid_config));
            }
            let draw = choose|draw: u32|
                entity.body == moved(body, #[trigger] direction_of(action, draw), self.grid_config);
            body.step_stays_on_grid(direction_of(action, draw), self.grid_config);
        }
        self.entities.insert(index, entity);
        proof {
            assert forall|k: int| 0 <= k < before.len() && k != index implies #[trigger] self.entities@[k]
                == before[k] by {}
        }
        action
    }

    /// Ends a step. While the generation lasts, the simulation moves on to
    /// the next step. Past the generation's last step the scenario is
    /// reset and a new generation starts; `fertile` says of each cell, in
    /// row-major order, whether food grows there then.
    pub fn finish_step(&mut self, fertile: &Vec<bool>) -> (result: Result<StepOutcome, SpawnError>)
        requires
            old(self).well_formed(),
            old(self).scenario.food is Some ==> fertile@.len() == old(self).grid_config.width * old(self).grid_config.height,
        ensures
            final(self).grid_config == old(self).grid_config,
            final(self).render_config == old(self).render_config,
            final(self).entity_config == old(self).entity_config,
            final(self).network_config == old(self).network_config,
            old(self).sim_current_step < old(self).scenario.generation_step_count ==> {
                &&& result == Ok::<StepOutcome, SpawnError>(StepOutcome::Advanced)
                &&& final(self).sim_current_step == old(self).sim_current_step + 1
                &&& final(self).sim_generation_number == old(self).sim_generation_number
                &&& final(self).scenario == old(self).scenario
                &&& final(self).entities == old(self).entities
                &&& final(self).well_formed()
            },
            old(self).sim_current_step >= old(self).scenario.generation_step_count ==> {
                let pool = old(self).pool_under(final(self).scenario);
                &&& reset_of(old(self).scenario, final(self).scenario, fertile@)
                &&& final(self).sim_current_step == 0
                &&& final(self).sim_generation_number == following(old(self).sim_generation_number)
                &&& match result {
                    Ok(outcome) => {
                        &&& outcome matches StepOutcome::NewGeneration(report)
                        &&& report.generation == old(self).sim_generation_number
                        &&& report.population == old(self).entities@.len()
                        &&& report.breeders == pool.len()
                        &&& final(self).well_formed()
                        &&& bred_from(
                            final(self).entities@,
                            pool,
                            old(self).grid_config,
                            old(self).entity_config,
                            old(self).network_config,
                            old(self).scenario.supplement_population,
                            old(self).scenario.limit_population,
                        )
                    },
                    Err(error) => error == SpawnError::NoSpace && final(self).entities@.len() == 0,
                }
                &&& result is Err <==> generation_size(
                    breeders(
                        pool,
                        old(self).scenario.limit_population,
                        old(self).entity_config,
                    ).len() as int,
                    old(self).entity_config,
                    old(self).scenario.supplement_population,
                ) > old(self).grid_config.cells()
            },
    {
        if self.sim_current_step >= self.scenario.generation_step_count {
            self.scenario.reset(fertile);
            match self.start_new_generation() {
                Ok(report) => Ok(StepOutcome::NewGeneration(report)),
                Err(error) => Err(error),
            }
        } else {
            self.sim_current_step += 1;
            Ok(StepOutcome::Advanced)
        }
    }
}

} // verus!
