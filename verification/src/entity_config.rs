use vstd::prelude::*;

verus! {

/// Size of the population and how it breeds.
#[derive(Clone, Copy, Debug)]
pub struct EntityConfig {
    /// Size of the first generation, and the size that later generations
    /// are filled up to.
    pub start_count: u32,
    /// Children of each parent.
    pub child_count: u32,
    /// Share of the survivors that breed, in parts per million.
    pub survivor_breed_rate: u32,
    /// Probability that a child's genome mutates, in parts per million.
    pub mutation_rate: u32,
    /// Largest change of a weight in one mutation, in millionths.
    pub mutation_magnitude: u32,
}

} // verus!
