use vstd::prelude::*;

use crate::grid_config::{cell_of, grid_index_to_coords};

verus! {

/// The food of a scenario: where it lies, as a map over the cells in
/// row-major order and as a list of cells.
#[derive(Debug)]
pub struct ScenarioFood {
    pub starting_food: u32,
    pub cull_for_starvation: bool,
    pub food_map: Vec<bool>,
    pub food_positions: Vec<(u32, u32)>,
}

/// The cells among the first `upto` of a map that hold food, in row-major
/// order.
pub open spec fn food_cells(food_map: Seq<bool>, grid_width: u32, upto: int) -> Seq<(u32, u32)>
    decreases upto,
{
    if upto <= 0 {
        Seq::empty()
    } else if food_map[upto - 1] {
        food_cells(food_map, grid_width, upto - 1).push(cell_of(upto - 1, grid_width))
    } else {
        food_cells(food_map, grid_width, upto - 1)
    }
}

/// Lays out food on the fertile cells of a grid. `fertile` says of each
/// cell, in row-major order, whether food grows there.
pub fn generate_food(
    grid_width: u32,
    grid_height: u32,
    starting_food: u32,
    fertile: &Vec<bool>,
) -> (food: (Vec<bool>, Vec<(u32, u32)>))
    requires
        fertile@.len() == grid_width * grid_height,
    ensures
        food.0@ == fertile@,
        food.1@ == food_cells(fertile@, grid_width, fertile@.len() as int),
{
    let mut food_map: Vec<bool> = Vec::new();
    let mut food_positions: Vec<(u32, u32)> = Vec::new();
    let mut index: usize = 0;
    while index < fertile.len()
        invariant
            index <= fertile.len(),
            fertile@.len() == grid_width * grid_height,
            food_map@ == fertile@.take(index as int),
            food_positions@ == food_cells(fertile@, grid_width, index as int),
        decreases fertile.len() - index,
    {
        food_map.push(fertile[index]);
        if fertile[index] {
            food_positions.push(grid_index_to_coords(index as u64, grid_width, grid_height));
        }
        assert(food_map@ =~= fertile@.take(index + 1));
        index += 1;
    }
    assert(fertile@.take(fertile@.len() as int) =~= fertile@);
    (food_map, food_positions)
}

} // verus!
