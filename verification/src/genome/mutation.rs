use vstd::prelude::*;

use super::gene::{in_unit_interval, perturb, perturbed, Gene};
use crate::neural_network::brain::{decode, decode_is_well_formed};
use crate::random::random_below;

verus! {

/// Largest change of a weight where no magnitude is configured: a tenth, in
/// millionths.
pub const DEFAULT_MUTATION_MAGNITUDE: u32 = 100_000;

/// Parts per million that make a whole.
pub const RATE_ONE: u32 = 1_000_000;

/// One mutation event on a gene: a bit flipped in one of its four
/// addressing fields, or a delta added to its weight.
#[derive(Clone, Copy, Debug, PartialEq, Eq, Structural)]
pub enum Mutation {
    FlipSourceDiscriminant { bit: u8 },
    FlipSourceInstance { bit: u8 },
    FlipTargetDiscriminant { bit: u8 },
    FlipTargetInstance { bit: u8 },
    PerturbWeight { delta: i64 },
}

impl Mutation {
    /// A flipped bit is one of the sixteen of its field.
    pub open spec fn valid(self) -> bool {
        match self {
            Mutation::FlipSourceDiscriminant { bit } => bit < 16,
            Mutation::FlipSourceInstance { bit } => bit < 16,
            Mutation::FlipTargetDiscriminant { bit } => bit < 16,
            Mutation::FlipTargetInstance { bit } => bit < 16,
            Mutation::PerturbWeight { delta } => true,
        }
    }

    /// A weight changes by no more than a magnitude.
    pub open spec fn within(self, magnitude: u32) -> bool {
        match self {
            Mutation::PerturbWeight { delta } => -magnitude <= delta <= magnitude,
            _ => true,
        }
    }
}

/// A gene after a mutation event.
pub open spec fn mutated(gene: Gene, mutation: Mutation) -> Gene {
    match mutation {
        Mutation::FlipSourceDiscriminant { bit } => Gene {
            source_discriminant: gene.source_discriminant ^ (1u16 << bit),
            ..gene
        },
        Mutation::FlipSourceInstance { bit } => Gene {
            source_instance: gene.source_instance ^ (1u16 << bit),
            ..gene
        },
        Mutation::FlipTargetDiscriminant { bit } => Gene {
            target_discriminant: gene.target_discriminant ^ (1u16 << bit),
            ..gene
        },
        Mutation::FlipTargetInstance { bit } => Gene {
            target_instance: gene.target_instance ^ (1u16 << bit),
            ..gene
        },
        Mutation::PerturbWeight { delta } => Gene {
            weight: perturbed(gene.weight, delta as int),
            ..gene
        },
    }
}

/// Every weight of a genome lies in the unit interval.
pub open spec fn weights_bounded(genome: Seq<Gene>) -> bool {
    forall|i: int| 0 <= i < genome.len() ==> in_unit_interval(#[trigger] genome[i].weight)
}

/// Applies one mutation event to a gene.
pub fn apply_mutation(gene: Gene, mutation: Mutation) -> (result: Gene)
    requires
        mutation.valid(),
    ensures
        result == mutated(gene, mutation),
        mutation is PerturbWeight ==> in_unit_interval(result.weight),
        !(mutation is PerturbWeight) ==> result.weight == gene.weight,
{
    let mut result = gene;
    match mutation {
        Mutation::FlipSourceDiscriminant { bit } => {
            result.source_discriminant = gene.source_discriminant ^ (1u16 << bit);
        },
        Mutation::FlipSourceInstance { bit } => {
            result.source_instance = gene.source_instance ^ (1u16 << bit);
        },
        Mutation::FlipTargetDiscriminant { bit } => {
            result.target_discriminant = gene.target_discriminant ^ (1u16 << bit);
        },
        Mutation::FlipTargetInstance { bit } => {
            result.target_instance = gene.target_instance ^ (1u16 << bit);
        },
        Mutation::PerturbWeight { delta } => {
            result.weight = perturb(gene.weight, delta);
        },
    }
    result
}

/// Draws a delta from `-magnitude..=magnitude`.
pub fn random_delta(magnitude: u32) -> (delta: i64)
    ensures
        -magnitude <= delta <= magnitude,
{
    let span: u64 = 2 * (magnitude as u64) + 1;
    delta_from_draw(random_below(span), magnitude)
}

/// Draws one mutation event: each of the four addressing fields and the
/// weight is as likely as the others, each of the sixteen bits of a field
/// as likely as the others, and a weight's delta comes from
/// `-magnitude..=magnitude`.
pub fn random_mutation(magnitude: u32) -> (mutation: Mutation)
    ensures
        mutation.valid(),
        mutation.within(magnitude),
{
    let bit = random_below(16) as u8;
    let band = random_below(5);
    let delta = if band >= 4 {
        random_delta(magnitude)
    } else {
        0
    };
    mutation_from_draws(band, bit, delta)
}

/// The delta that a draw stands for: the draws from zero to twice the
/// magnitude count up from `-magnitude`.
pub open spec fn delta_of(draw: u64, magnitude: u32) -> int {
    draw - magnitude
}

/// The mutation event that three draws stand for. The first four bands
/// flip the drawn bit in the source discriminant, the source instance, the
/// target discriminant and the target instance, in this order; every other
/// band adds the drawn delta to the weight.
pub open spec fn mutation_of(band: u64, bit: u8, delta: i64) -> Mutation {
    if band == 0 {
        Mutation::FlipSourceDiscriminant { bit }
    } else if band == 1 {
        Mutation::FlipSourceInstance { bit }
    } else if band == 2 {
        Mutation::FlipTargetDiscriminant { bit }
    } else if band == 3 {
        Mutation::FlipTargetInstance { bit }
    } else {
        Mutation::PerturbWeight { delta }
    }
}

/// Turns a draw into the delta that it stands for.
pub fn delta_from_draw(draw: u64, magnitude: u32) -> (delta: i64)
    requires
        draw <= 2 * magnitude,
    ensures
        delta == delta_of(draw, magnitude),
{
    draw as i64 - magnitude as i64
}

/// Turns three draws into the mutation event that they stand for.
pub fn mutation_from_draws(band: u64, bit: u8, delta: i64) -> (mutation: Mutation)
    ensures
        mutation == mutation_of(band, bit, delta),
{
    if band == 0 {
        Mutation::FlipSourceDiscriminant { bit }
    } else if band == 1 {
        Mutation::FlipSourceInstance { bit }
    } else if band == 2 {
        Mutation::FlipTargetDiscriminant { bit }
    } else if band == 3 {
        Mutation::FlipTargetInstance { bit }
    } else {
        Mutation::PerturbWeight { delta }
    }
}

/// A genome after exactly one mutation event on one of its genes: the
/// event is valid, a weight moves by no more than the magnitude, and every
/// other gene is as it was.
pub open spec fn mutated_once(after: Seq<Gene>, before: Seq<Gene>, magnitude: u32) -> bool {
    exists|index: int, mutation: Mutation|
        0 <= index < before.len() && mutation.valid() && mutation.within(magnitude) && after
            == before.update(index, #[trigger] mutated(before[index], mutation))
}

/// Whether a roll, drawn from the parts per million of a whole, falls under
/// a mutation rate.
pub open spec fn mutates(roll: u64, mutation_rate: u32) -> bool {
    roll < mutation_rate
}

/// Applies exactly one mutation event to one gene of a genome, both picked
/// at random. The genome keeps its length and every other gene. A genome
/// without genes stays as it is.
pub fn mutate_genome(genome: &mut Vec<Gene>, magnitude: u32)
    ensures
        old(genome)@.len() == 0 ==> final(genome)@ == old(genome)@,
        old(genome)@.len() > 0 ==> mutated_once(final(genome)@, old(genome)@, magnitude),
        weights_bounded(old(genome)@) ==> weights_bounded(final(genome)@),
{
    if genome.len() > 0 {
        let index = random_below(genome.len() as u64) as usize;
        let mutation = random_mutation(magnitude);
        let gene = apply_mutation(genome[index], mutation);
        genome.set(index, gene);
        assert(genome@ == old(genome)@.update(
            index as int,
            mutated(old(genome)@[index as int], mutation),
        ));
    }
}

/// One mutation event with the default magnitude. A genome without genes
/// stays as it is.
pub fn flip_random_bit(genome: &mut Vec<Gene>)
    ensures
        old(genome)@.len() == 0 ==> final(genome)@ == old(genome)@,
        old(genome)@.len() > 0 ==> mutated_once(
            final(genome)@,
            old(genome)@,
            DEFAULT_MUTATION_MAGNITUDE,
        ),
        weights_bounded(old(genome)@) ==> weights_bounded(final(genome)@),
{
    mutate_genome(genome, DEFAULT_MUTATION_MAGNITUDE);
}

/// The genome of a child, given the roll that decides whether it mutates:
/// where the roll falls under the mutation rate, the parent's genome with
/// exactly one mutation event, and else the parent's genome as it is. A
/// genome without genes is handed on as it is.
pub fn child_genome(parent: &Vec<Gene>, roll: u64, mutation_rate: u32, magnitude: u32) -> (child:
    Vec<Gene>)
    ensures
        mutates(roll, mutation_rate) && parent@.len() > 0 ==> mutated_once(
            child@,
            parent@,
            magnitude,
        ),
        !(mutates(roll, mutation_rate) && parent@.len() > 0) ==> child@ == parent@,
{
    let mut genome = parent.clone();
    assert(genome@ =~= parent@);
    if roll < mutation_rate as u64 {
        mutate_genome(&mut genome, magnitude);
    }
    genome
}

/// A mutated genome still decodes: whatever bit was flipped, every gene
/// names neurons of a kind, and the brain is well formed.
pub proof fn mutated_genome_decodes(genome: Seq<Gene>, index: int, mutation: Mutation)
    requires
        0 <= index < genome.len(),
        2 * genome.len() <= usize::MAX,
    ensures
        decode(genome.update(index, mutated(genome[index], mutation))).well_formed(),
        decode(genome.update(index, mutated(genome[index], mutation))).connections.len()
            == genome.len(),
{
    decode_is_well_formed(genome.update(index, mutated(genome[index], mutation)));
}

/// Mutation keeps a genome's length, and keeps its weights in the unit
/// interval where they all were there before.
pub proof fn mutation_keeps_weights_bounded(genome: Seq<Gene>, index: int, mutation: Mutation)
    requires
        0 <= index < genome.len(),
        weights_bounded(genome),
    ensures
        genome.update(index, mutated(genome[index], mutation)).len() == genome.len(),
        weights_bounded(genome.update(index, mutated(genome[index], mutation))),
        mutation is PerturbWeight ==> in_unit_interval(mutated(genome[index], mutation).weight),
{
    let after = genome.update(index, mutated(genome[index], mutation));
    assert forall|i: int| 0 <= i < after.len() implies in_unit_interval(
        #[trigger] after[i].weight,
    ) by {
        if i != index {
            assert(after[i] == genome[i]);
        } else {
            assert(in_unit_interval(genome[index].weight));
        }
    }
}

} // verus!
