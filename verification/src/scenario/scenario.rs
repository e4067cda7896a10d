use vstd::prelude::*;

use super::food::{food_cells, generate_food, ScenarioFood};
use super::radiation_zone::{squared_length, RadiationZone, ScenarioRadiation};
use crate::grid_config::{cell_index, cell_index_in_grid, grid_coords_to_index, GridConfig};
use crate::services::scenarios::ScenarioFile;

verus! {

/// The state of a scenario during a generation.
#[derive(Debug)]
pub struct Scenario {
    pub generation_step_count: usize,
    pub supplement_population: bool,
    pub limit_population: bool,
    pub radiation: Option<ScenarioRadiation>,
    pub food: Option<ScenarioFood>,
    pub grid_width: u32,
    pub grid_height: u32,
}

/// The latest end among the first `upto` zones, zero if there is none.
pub open spec fn latest_end(zones: Seq<RadiationZone>, upto: int) -> usize
    decreases upto,
{
    if upto <= 0 {
        0
    } else {
        let earlier = latest_end(zones, upto - 1);
        if zones[upto - 1].end_time > earlier {
            zones[upto - 1].end_time
        } else {
            earlier
        }
    }
}

/// The positions `0, 1, ..` up to a count.
pub open spec fn counting(count: int) -> Seq<usize> {
    Seq::new(count as nat, |i: int| i as usize)
}

/// Whether the zone at a position has not ended at a step.
pub open spec fn outlasts(zones: Seq<RadiationZone>, step: usize) -> spec_fn(usize) -> bool {
    |i: usize| step < zones[i as int].end_time
}

/// Whether the zone at a position is in force at a step.
pub open spec fn in_force(zones: Seq<RadiationZone>, step: usize) -> spec_fn(usize) -> bool {
    |i: usize| zones[i as int].start_time <= step <= zones[i as int].end_time
}

/// Whether a cell is another one than `point`.
pub open spec fn other_than(point: (u32, u32)) -> spec_fn((u32, u32)) -> bool {
    |cell: (u32, u32)| cell.0 != point.0 || cell.1 != point.1
}

/// Position, among the first `upto` displacements, of the first one that
/// none is shorter than.
pub open spec fn nearest(displacements: Seq<(i64, i64)>, upto: int) -> int
    decreases upto,
{
    if upto <= 1 {
        0
    } else {
        let best = nearest(displacements, upto - 1);
        if squared_length(displacements[upto - 1]) < squared_length(displacements[best]) {
            upto - 1
        } else {
            best
        }
    }
}

/// `nearest` is the first minimum.
pub proof fn nearest_is_first_minimum(displacements: Seq<(i64, i64)>, upto: int)
    requires
        1 <= upto <= displacements.len(),
    ensures
        0 <= nearest(displacements, upto) < upto,
        forall|j: int|
            0 <= j < upto ==> squared_length(displacements[nearest(displacements, upto)])
                <= squared_length(#[trigger] displacements[j]),
        forall|j: int|
            0 <= j < nearest(displacements, upto) ==> squared_length(
                displacements[nearest(displacements, upto)],
            ) < squared_length(#[trigger] displacements[j]),
    decreases upto,
{
    if upto > 1 {
        nearest_is_first_minimum(displacements, upto - 1);
    }
}

/// Whether a zone in force covers a cell at a step.
pub open spec fn in_rad_zone(radiation: ScenarioRadiation, point: (u32, u32), step: usize) -> bool {
    exists|k: int|
        0 <= k < radiation.active_rad_zones@.len() && (
        #[trigger] radiation.starting_rad_zones@[radiation.active_rad_zones@[k] as int]).covers(
            point,
            step,
        )
}

/// A scenario after the food was taken off a cell: the cell's entry in the
/// food map is cleared, the cell has left the food list, and nothing else
/// has changed.
pub open spec fn food_consumed(before: Scenario, after: Scenario, point: (u32, u32)) -> bool {
    &&& after.generation_step_count == before.generation_step_count
    &&& after.supplement_population == before.supplement_population
    &&& after.limit_population == before.limit_population
    &&& after.grid_width == before.grid_width
    &&& after.grid_height == before.grid_height
    &&& after.radiation == before.radiation
    &&& before.food matches Some(old_food)
    &&& after.food matches Some(food)
    &&& food.starting_food == old_food.starting_food
    &&& food.cull_for_starvation == old_food.cull_for_starvation
    &&& food.food_map@ == old_food.food_map@.update(
        cell_index(point.0, point.1, before.grid_width),
        false,
    )
    &&& food.food_positions@ == old_food.food_positions@.filter(other_than(point))
}

/// A scenario put back to the start of a generation: every zone is still
/// to come, none is in force, the food lies on the fertile cells, and
/// nothing else has changed.
pub open spec fn reset_of(before: Scenario, after: Scenario, fertile: Seq<bool>) -> bool {
    &&& after.generation_step_count == before.generation_step_count
    &&& after.supplement_population == before.supplement_population
    &&& after.limit_population == before.limit_population
    &&& after.grid_width == before.grid_width
    &&& after.grid_height == before.grid_height
    &&& match before.radiation {
        Some(radiation) => after.radiation_at_start(
            radiation.death_threshold,
            radiation.starting_rad_zones@,
        ),
        None => after.radiation is None,
    }
    &&& match before.food {
        Some(food) => after.food_at_start(food.starting_food, food.cull_for_starvation, fertile),
        None => after.food is None,
    }
}

/// The displacements from a cell to the zones in force, in their order.
pub open spec fn zone_displacements(radiation: ScenarioRadiation, point: (u32, u32)) -> Seq<
    (i64, i64),
> {
    Seq::new(
        radiation.active_rad_zones@.len(),
        |k: int|
            radiation.starting_rad_zones@[radiation.active_rad_zones@[k] as int].displacement(point),
    )
}

/// The displacements from a cell to the food, in the order of the list.
pub open spec fn food_displacements(food_positions: Seq<(u32, u32)>, point: (u32, u32)) -> Seq<
    (i64, i64),
> {
    Seq::new(
        food_positions.len(),
        |k: int|
            ((food_positions[k].0 - point.0) as i64, (food_positions[k].1 - point.1) as i64),
    )
}

/// Squared length of a displacement between cells or zones of a grid.
fn squared(displacement: (i64, i64)) -> (length: i128)
    requires
        -0x2_0000_0000 <= displacement.0 <= 0x2_0000_0000,
        -0x2_0000_0000 <= displacement.1 <= 0x2_0000_0000,
    ensures
        length == squared_length(displacement),
{
    let dx = displacement.0 as i128;
    let dy = displacement.1 as i128;
    assert(0 <= dx * dx <= 0x2_0000_0000 * 0x2_0000_0000) by (nonlinear_arith)
        requires
            -0x2_0000_0000 <= dx <= 0x2_0000_0000,
    ;
    assert(0 <= dy * dy <= 0x2_0000_0000 * 0x2_0000_0000) by (nonlinear_arith)
        requires
            -0x2_0000_0000 <= dy <= 0x2_0000_0000,
    ;
    dx * dx + dy * dy
}

/// The positions of the zones, among those listed, that have not ended.
fn unfinished_zones(zones: &Vec<RadiationZone>, listed: &Vec<usize>, step: usize) -> (kept: Vec<
    usize,
>)
    requires
        forall|k: int| 0 <= k < listed@.len() ==> #[trigger] listed@[k] < zones@.len(),
    ensures
        kept@ == listed@.filter(outlasts(zones@, step)),
        forall|k: int| 0 <= k < kept@.len() ==> #[trigger] kept@[k] < zones@.len(),
{
    let mut kept: Vec<usize> = Vec::new();
    let mut k: usize = 0;
    proof {
        reveal(Seq::filter);
        assert(listed@.take(0) =~= Seq::<usize>::empty());
    }
    while k < listed.len()
        invariant
            k <= listed.len(),
            forall|j: int| 0 <= j < listed@.len() ==> #[trigger] listed@[j] < zones@.len(),
            kept@ == listed@.take(k as int).filter(outlasts(zones@, step)),
            forall|j: int| 0 <= j < kept@.len() ==> #[trigger] kept@[j] < zones@.len(),
        decreases listed.len() - k,
    {
        let position = listed[k];
        proof {
            reveal(Seq::filter);
            assert(listed@.take(k + 1).drop_last() =~= listed@.take(k as int));
        }
        if step < zones[position].end_time {
            kept.push(position);
        }
        k += 1;
    }
    assert(listed@.take(listed@.len() as int) =~= listed@);
    kept
}

/// The positions of the zones, among those listed, that are in force.
fn zones_in_force(zones: &Vec<RadiationZone>, listed: &Vec<usize>, step: usize) -> (kept: Vec<
    usize,
>)
    requires
        forall|k: int| 0 <= k < listed@.len() ==> #[trigger] listed@[k] < zones@.len(),
    ensures
        kept@ == listed@.filter(in_force(zones@, step)),
        forall|k: int| 0 <= k < kept@.len() ==> #[trigger] kept@[k] < zones@.len(),
{
    let mut kept: Vec<usize> = Vec::new();
    let mut k: usize = 0;
    proof {
        reveal(Seq::filter);
        assert(listed@.take(0) =~= Seq::<usize>::empty());
    }
    while k < listed.len()
        invariant
            k <= listed.len(),
            forall|j: int| 0 <= j < listed@.len() ==> #[trigger] listed@[j] < zones@.len(),
            kept@ == listed@.take(k as int).filter(in_force(zones@, step)),
            forall|j: int| 0 <= j < kept@.len() ==> #[trigger] kept@[j] < zones@.len(),
        decreases listed.len() - k,
    {
        let position = listed[k];
        proof {
            reveal(Seq::filter);
            assert(listed@.take(k + 1).drop_last() =~= listed@.take(k as int));
        }
        let zone = &zones[position];
        if step >= zone.start_time && step <= zone.end_time {
            kept.push(position);
        }
        k += 1;
    }
    assert(listed@.take(listed@.len() as int) =~= listed@);
    kept
}

/// The positions `0, 1, ..` up to a count.
fn count_up(count: usize) -> (positions: Vec<usize>)
    ensures
        positions@ == counting(count as int),
{
    let mut positions: Vec<usize> = Vec::new();
    let mut i: usize = 0;
    while i < count
        invariant
            i <= count,
            positions@ == counting(i as int),
        decreases count - i,
    {
        positions.push(i);
        assert(positions@ =~= counting(i + 1));
        i += 1;
    }
    positions
}

/// The food list without a cell.
fn without_cell(food_positions: &Vec<(u32, u32)>, point: (u32, u32)) -> (kept: Vec<(u32, u32)>)
    ensures
        kept@ == food_positions@.filter(other_than(point)),
{
    let mut kept: Vec<(u32, u32)> = Vec::new();
    let mut k: usize = 0;
    proof {
        reveal(Seq::filter);
        assert(food_positions@.take(0) =~= Seq::<(u32, u32)>::empty());
    }
    while k < food_positions.len()
        invariant
            k <= food_positions.len(),
            kept@ == food_positions@.take(k as int).filter(other_than(point)),
        decreases food_positions.len() - k,
    {
        let cell = food_positions[k];
        proof {
            reveal(Seq::filter);
            assert(food_positions@.take(k + 1).drop_last() =~= food_positions@.take(k as int));
        }
        if cell.0 != point.0 || cell.1 != point.1 {
            kept.push(cell);
        }
        k += 1;
    }
    assert(food_positions@.take(food_positions@.len() as int) =~= food_positions@);
    kept
}

impl Scenario {
    /// The lists of zones name zones, and the food map covers the grid.
    pub open spec fn well_formed(self) -> bool {
        &&& self.radiation matches Some(radiation) ==> radiation.well_formed()
        &&& self.food matches Some(food) ==> food.food_map@.len() == self.grid_width
            * self.grid_height
    }

    /// Tests whether the scenario is well formed.
    pub fn is_well_formed(&self) -> (answer: bool)
        ensures
            answer == self.well_formed(),
    {
        let zones_named = match &self.radiation {
            Some(radiation) => radiation.is_well_formed(),
            None => true,
        };
        let food_laid_out = match &self.food {
            Some(food) => {
                let grid = GridConfig { width: self.grid_width, height: self.grid_height };
                food.food_map.len() as u64 == grid.cell_count()
            },
            None => true,
        };
        zones_named && food_laid_out
    }

    /// The radiation as a generation starts with it.
    pub open spec fn radiation_at_start(self, death_threshold: Option<u32>, zones: Seq<RadiationZone>) -> bool {
        &&& self.radiation matches Some(radiation)
        &&& radiation.death_threshold == death_threshold
        &&& radiation.starting_rad_zones@ == zones
        &&& radiation.remaining_rad_zones@ == counting(zones.len() as int)
        &&& radiation.active_rad_zones@.len() == 0
    }

    /// The food as a generation starts with it.
    pub open spec fn food_at_start(
        self,
        starting_food: u32,
        cull_for_starvation: bool,
        fertile: Seq<bool>,
    ) -> bool {
        &&& self.food matches Some(food)
        &&& food.starting_food == starting_food
        &&& food.cull_for_starvation == cull_for_starvation
        &&& food.food_map@ == fertile
        &&& food.food_positions@ == food_cells(fertile, self.grid_width, fertile.len() as int)
    }

    /// Sets a scenario up from its description. A generation lasts until
    /// the last radiation zone ends. `fertile` says of each cell, in
    /// row-major order, whether food grows there; it is read only where the
    /// description has food.
    pub fn from_file(
        config: ScenarioFile,
        grid_width: u32,
        grid_height: u32,
        fertile: &Vec<bool>,
    ) -> (scenario: Self)
        requires
            config.radiation matches Some(radiation) ==> radiation.zones@.len() > 0,
            config.food is Some ==> fertile@.len() == grid_width * grid_height,
        ensures
            scenario.well_formed(),
            scenario.grid_width == grid_width,
            scenario.grid_height == grid_height,
            scenario.supplement_population == config.supplement_population,
            scenario.limit_population == config.limit_population,
            match config.radiation {
                Some(radiation) => {
                    &&& scenario.generation_step_count == latest_end(
                        radiation.zones@,
                        radiation.zones@.len() as int,
                    )
                    &&& scenario.radiation_at_start(radiation.death_threshold, radiation.zones@)
                },
                None => scenario.generation_step_count == 0 && scenario.radiation is None,
            },
            match config.food {
                Some(food) => scenario.food_at_start(
                    food.starting_food,
                    food.cull_for_starvation,
                    fertile@,
                ),
                None => scenario.food is None,
            },
    {
        let mut generation_step_count: usize = 0;
        let radiation = match config.radiation {
            Some(radiation_config) => {
                let starting_rad_zones = radiation_config.zones;
                let mut k: usize = 0;
                while k < starting_rad_zones.len()
                    invariant
                        k <= starting_rad_zones.len(),
                        generation_step_count == latest_end(starting_rad_zones@, k as int),
                    decreases starting_rad_zones.len() - k,
                {
                    if starting_rad_zones[k].end_time > generation_step_count {
                        generation_step_count = starting_rad_zones[k].end_time;
                    }
                    k += 1;
                }
                Some(
                    ScenarioRadiation {
                        death_threshold: radiation_config.death_threshold,
                        remaining_rad_zones: count_up(starting_rad_zones.len()),
                        starting_rad_zones,
                        active_rad_zones: Vec::new(),
                    },
                )
            },
            None => None,
        };
        let food = match config.food {
            Some(food_config) => {
                let (food_map, food_positions) = generate_food(
                    grid_width,
                    grid_height,
                    food_config.starting_food,
                    fertile,
                );
                Some(
                    ScenarioFood {
                        starting_food: food_config.starting_food,
                        cull_for_starvation: food_config.cull_for_starvation,
                        food_map,
                        food_positions,
                    },
                )
            },
            None => None,
        };
        Self {
            generation_step_count,
            radiation,
            food,
            grid_width,
            grid_height,
            supplement_population: config.supplement_population,
            limit_population: config.limit_population,
        }
    }

    /// Puts the scenario back to the start of a generation: every zone is
    /// still to come, none is in force, and the food is laid out anew on
    /// the fertile cells.
    pub fn reset(&mut self, fertile: &Vec<bool>)
        requires
            old(self).food is Some ==> fertile@.len() == old(self).grid_width * old(self).grid_height,
        ensures
            final(self).well_formed(),
            reset_of(*old(self), *final(self), fertile@),
    {
        match &mut self.radiation {
            Some(radiation) => {
                radiation.remaining_rad_zones = count_up(radiation.starting_rad_zones.len());
                radiation.active_rad_zones = Vec::new();
            },
            None => {},
        }
        let grid_width = self.grid_width;
        let grid_height = self.grid_height;
        match &mut self.food {
            Some(food) => {
                let (food_map, food_positions) = generate_food(
                    grid_width,
                    grid_height,
                    food.starting_food,
                    fertile,
                );
                food.food_map = food_map;
                food.food_positions = food_positions;
            },
            None => {},
        }
    }

    /// Moves the zones on to a step: the zones that have ended leave the
    /// list of those to come, and the zones in force are picked from the
    /// rest.
    pub fn update(&mut self, current_step: usize)
        requires
            old(self).well_formed(),
        ensures
            final(self).well_formed(),
            final(self).generation_step_count == old(self).generation_step_count,
            final(self).supplement_population == old(self).supplement_population,
            final(self).limit_population == old(self).limit_population,
            final(self).grid_width == old(self).grid_width,
            final(self).grid_height == old(self).grid_height,
            final(self).food == old(self).food,
            match old(self).radiation {
                Some(before) => {
                    &&& final(self).radiation matches Some(after)
                    &&& after.death_threshold == before.death_threshold
                    &&& after.starting_rad_zones == before.starting_rad_zones
                    &&& after.remaining_rad_zones@ == before.remaining_rad_zones@.filter(
                        outlasts(before.starting_rad_zones@, current_step),
                    )
                    &&& after.active_rad_zones@ == after.remaining_rad_zones@.filter(
                        in_force(before.starting_rad_zones@, current_step),
                    )
                },
                None => final(self).radiation is None,
            },
    {
        match &mut self.radiation {
            Some(radiation) => {
                let remaining = unfinished_zones(
                    &radiation.starting_rad_zones,
                    &radiation.remaining_rad_zones,
                    current_step,
                );
                let active = zones_in_force(&radiation.starting_rad_zones, &remaining, current_step);
                radiation.remaining_rad_zones = remaining;
                radiation.active_rad_zones = active;
            },
            None => {},
        }
    }

    /// The displacement from a cell to the nearest zone in force, the first
    /// of them where several are equally near; `None` where no zone is in
    /// force.
    pub fn shortest_rad_zone_displacement(&self, point: (u32, u32)) -> (nearest_zone: Option<
        (i64, i64),
    >)
        requires
            self.well_formed(),
            self.radiation is Some,
        ensures
            nearest_zone == {
                let candidates = zone_displacements(self.radiation->Some_0, point);
                if candidates.len() == 0 {
                    None
                } else {
                    Some(candidates[nearest(candidates, candidates.len() as int)])
                }
            },
    {
        let radiation = match &self.radiation {
            Some(radiation) => radiation,
            None => {
                return None;
            },
        };
        let ghost candidates = zone_displacements(*radiation, point);
        let count = radiation.active_rad_zones.len();
        if count == 0 {
            return None;
        }
        let mut best = radiation.starting_rad_zones[radiation.active_rad_zones[0]].displacement_from(
            point,
        );
        let mut k: usize = 1;
        while k < count
            invariant
                radiation.well_formed(),
                count == radiation.active_rad_zones@.len(),
                candidates == zone_displacements(*radiation, point),
                1 <= k <= count,
                0 <= nearest(candidates, k as int) < k,
                best == candidates[nearest(candidates, k as int)],
            decreases count - k,
        {
            let next = radiation.starting_rad_zones[radiation.active_rad_zones[k]].displacement_from(
                point,
            );
            assert(next == candidates[k as int]);
            if squared(next) < squared(best) {
                best = next;
            }
            k += 1;
        }
        Some(best)
    }

    /// The displacement from a cell to the nearest food, the first in the
    /// list where several are equally near; `None` where no food is left.
    pub fn shortest_food_displacement(&self, point: (u32, u32)) -> (nearest_food: Option<
        (i64, i64),
    >)
        requires
            self.food is Some,
        ensures
            nearest_food == {
                let candidates = food_displacements(self.food->Some_0.food_positions@, point);
                if candidates.len() == 0 {
                    None
                } else {
                    Some(candidates[nearest(candidates, candidates.len() as int)])
                }
            },
    {
        let food = match &self.food {
            Some(food) => food,
            None => {
                return None;
            },
        };
        let ghost candidates = food_displacements(food.food_positions@, point);
        let count = food.food_positions.len();
        if count == 0 {
            return None;
        }
        let first = food.food_positions[0];
        let mut best = (first.0 as i64 - point.0 as i64, first.1 as i64 - point.1 as i64);
        let mut k: usize = 1;
        while k < count
            invariant
                count == food.food_positions@.len(),
                candidates == food_displacements(food.food_positions@, point),
                1 <= k <= count,
                0 <= nearest(candidates, k as int) < k,
                best == candidates[nearest(candidates, k as int)],
            decreases count - k,
        {
            let cell = food.food_positions[k];
            let next = (cell.0 as i64 - point.0 as i64, cell.1 as i64 - point.1 as i64);
            assert(next == candidates[k as int]);
            if squared(next) < squared(best) {
                best = next;
            }
            k += 1;
        }
        Some(best)
    }

    /// Whether a cell of the grid holds food.
    pub fn is_food_at_point(&self, point: (u32, u32)) -> (answer: bool)
        requires
            self.well_formed(),
            self.food is Some,
            point.0 < self.grid_width,
            point.1 < self.grid_height,
        ensures
            answer == self.food->Some_0.food_map@[cell_index(point.0, point.1, self.grid_width)],
    {
        let index = grid_coords_to_index(point.0, point.1, self.grid_width);
        proof {
            cell_index_in_grid(
                point.0,
                point.1,
                GridConfig { width: self.grid_width, height: self.grid_height },
            );
        }
        match &self.food {
            Some(food) => {
                assert(index < food.food_map.len());
                food.food_map[index as usize]
            },
            None => false,
        }
    }

    /// Takes the food off a cell of the grid.
    pub fn consume_food_at_point(&mut self, point: (u32, u32))
        requires
            old(self).well_formed(),
            old(self).food is Some,
            point.0 < old(self).grid_width,
            point.1 < old(self).grid_height,
        ensures
            final(self).well_formed(),
            food_consumed(*old(self), *final(self), point),
    {
        let index = grid_coords_to_index(point.0, point.1, self.grid_width);
        proof {
            cell_index_in_grid(
                point.0,
                point.1,
                GridConfig { width: self.grid_width, height: self.grid_height },
            );
        }
        match &mut self.food {
            Some(food) => {
                assert(index < food.food_map.len());
                food.food_map.set(index as usize, false);
                let kept = without_cell(&food.food_positions, point);
                food.food_positions = kept;
            },
            None => {},
        }
    }

    /// Whether a zone in force covers a cell at a step.
    pub fn is_point_in_rad_zone(&self, point: (u32, u32), generation_time: usize) -> (answer: bool)
        requires
            self.well_formed(),
            self.radiation is Some,
        ensures
            answer == in_rad_zone(self.radiation->Some_0, point, generation_time),
    {
        let radiation = match &self.radiation {
            Some(radiation) => radiation,
            None => {
                return false;
            },
        };
        let mut k: usize = 0;
        while k < radiation.active_rad_zones.len()
            invariant
                radiation.well_formed(),
                self.radiation is Some,
                self.radiation->Some_0 == *radiation,
                k <= radiation.active_rad_zones.len(),
                forall|j: int|
                    0 <= j < k ==> !(
                    #[trigger] radiation.starting_rad_zones@[radiation.active_rad_zones@[j] as int]).covers(
                        point,
                        generation_time,
                    ),
            decreases radiation.active_rad_zones.len() - k,
        {
            if radiation.starting_rad_zones[radiation.active_rad_zones[k]].is_covering(
                point,
                generation_time,
            ) {
                assert(self.radiation->Some_0.starting_rad_zones@[self.radiation->Some_0.active_rad_zones@[k as int] as int].covers(
                    point,
                    generation_time,
                ));
                return true;
            }
            k += 1;
        }
        false
    }
}

} // verus!
