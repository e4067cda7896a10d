//! Genomes: flat, ordered lists of genes.

pub mod gene;
pub mod mutation;

use std::collections::HashMap;
use vstd::prelude::*;

use crate::neural_network::hidden_neuron::HIDDEN_NEURON_COUNT;
use crate::neural_network::input_neuron::INPUT_NEURON_COUNT;
use crate::neural_network::output_neuron::OUTPUT_NEURON_COUNT;
use crate::neural_network_config::NeuralNetworkConfig;
use crate::random::random_below;
use gene::{Gene, WEIGHT_ONE};

verus! {

/// Number of genes before position `upto` whose target has a given role and
/// discriminant.
pub open spec fn earlier_of_kind(
    genes: Seq<Gene>,
    upto: int,
    is_output: bool,
    discriminant: u16,
) -> nat
    decreases upto,
{
    if upto <= 0 {
        0
    } else {
        let before = earlier_of_kind(genes, upto - 1, is_output, discriminant);
        if genes[upto - 1].target_is_output == is_output && genes[upto - 1].target_discriminant
            == discriminant {
            before + 1
        } else {
            before
        }
    }
}

/// Gene `i` stands where a layered genome has it. The genes come in layers
/// of `width`. The first layer leads from inputs to hidden neurons; each
/// later layer starts where the layer before it ended, gene by gene; the
/// genes from `hidden_total` on lead to outputs. Among the targets of one
/// role and discriminant, instances are numbered in order of appearance, so
/// every gene aims at a neuron that no earlier gene aims at.
pub open spec fn gene_in_place(genes: Seq<Gene>, i: int, width: int, hidden_total: int) -> bool {
    let gene = genes[i];
    &&& -(WEIGHT_ONE as int) <= gene.weight < WEIGHT_ONE
    &&& gene.target_is_output == (i >= hidden_total)
    &&& gene.target_discriminant < if gene.target_is_output {
        OUTPUT_NEURON_COUNT
    } else {
        HIDDEN_NEURON_COUNT
    }
    &&& gene.target_instance == earlier_of_kind(
        genes,
        i,
        gene.target_is_output,
        gene.target_discriminant,
    )
    &&& gene.source_is_hidden == (i >= width)
    &&& if i < width {
        gene.source_discriminant < INPUT_NEURON_COUNT && gene.source_instance == 0
    } else {
        gene.source_discriminant == genes[i - width].target_discriminant && gene.source_instance
            == genes[i - width].target_instance
    }
}

/// A genome of `depth` hidden layers of `width` neurons each, fully laid
/// out: `width * (depth + 1)` genes, each in its place.
pub open spec fn layered(genes: Seq<Gene>, width: int, depth: int) -> bool {
    &&& genes.len() == width * (depth + 1)
    &&& forall|i: int| 0 <= i < genes.len() ==> #[trigger] gene_in_place(genes, i, width, width * depth)
}

/// Number of targets that a counter map has seen of one discriminant.
spec fn seen(counters: Map<u16, u16>, discriminant: u16) -> int {
    if counters.contains_key(discriminant) {
        counters[discriminant] + 1
    } else {
        0
    }
}

proof fn lemma_earlier_of_kind_prefix(
    first: Seq<Gene>,
    second: Seq<Gene>,
    upto: int,
    is_output: bool,
    discriminant: u16,
)
    requires
        upto <= first.len(),
        upto <= second.len(),
        forall|j: int| 0 <= j < upto ==> first[j] == second[j],
    ensures
        earlier_of_kind(first, upto, is_output, discriminant) == earlier_of_kind(
            second,
            upto,
            is_output,
            discriminant,
        ),
    decreases upto,
{
    if upto > 0 {
        lemma_earlier_of_kind_prefix(first, second, upto - 1, is_output, discriminant);
    }
}

proof fn lemma_earlier_of_kind_grows(
    genes: Seq<Gene>,
    from: int,
    upto: int,
    is_output: bool,
    discriminant: u16,
)
    requires
        0 <= from <= upto,
    ensures
        earlier_of_kind(genes, from, is_output, discriminant) <= earlier_of_kind(
            genes,
            upto,
            is_output,
            discriminant,
        ),
    decreases upto - from,
{
    if from < upto {
        lemma_earlier_of_kind_grows(genes, from, upto - 1, is_output, discriminant);
    }
}

/// No two genes of a layered genome aim at the same neuron.
pub proof fn layered_targets_are_distinct(genes: Seq<Gene>, width: int, depth: int, i: int, j: int)
    requires
        layered(genes, width, depth),
        0 <= i < j < genes.len(),
    ensures
        genes[i].target_ref() != genes[j].target_ref(),
{
    assert(gene_in_place(genes, i, width, width * depth));
    assert(gene_in_place(genes, j, width, width * depth));
    let is_output = genes[i].target_is_output;
    let discriminant = genes[i].target_discriminant;
    if genes[j].target_is_output == is_output && genes[j].target_discriminant == discriminant {
        lemma_earlier_of_kind_grows(genes, i + 1, j, is_output, discriminant);
    }
}

/// Takes the next instance number of a discriminant.
fn next_instance(counters: &mut HashMap<u16, u16>, discriminant: u16) -> (instance: u16)
    requires
        seen(old(counters)@, discriminant) <= u16::MAX,
    ensures
        instance == seen(old(counters)@, discriminant),
        forall|other: u16|
            #[trigger] seen(final(counters)@, other) == seen(old(counters)@, other) + if other
                == discriminant {
                1int
            } else {
                0int
            },
{
    let instance: u16 = match counters.get(&discriminant) {
        Some(last) => *last + 1,
        None => 0,
    };
    counters.insert(discriminant, instance);
    instance
}

/// Draws a weight from the unit interval, its upper end left out.
fn random_weight() -> (weight: i32)
    ensures
        -(WEIGHT_ONE as int) <= weight < WEIGHT_ONE,
{
    weight_from_draw(random_below(2 * (WEIGHT_ONE as u64)))
}

/// The weight that a draw stands for: the draws from zero up to, but not
/// including, two count up from minus one, a millionth at a time.
pub open spec fn weight_of(draw: u64) -> int {
    draw - WEIGHT_ONE
}

/// Turns a draw into the weight that it stands for.
pub fn weight_from_draw(draw: u64) -> (weight: i32)
    requires
        draw < 2 * WEIGHT_ONE,
    ensures
        weight == weight_of(draw),
{
    (draw as i64 - WEIGHT_ONE as i64) as i32
}

/// Generates a random layered genome. Which input, hidden and output kinds
/// the genes name, and their weights, are left to chance; the layout is
/// not.
pub fn random_genome(network_config: &NeuralNetworkConfig) -> (genome: Vec<Gene>)
    requires
        network_config.supports_generation(),
    ensures
        layered(
            genome@,
            network_config.hidden_layer_width as int,
            network_config.hidden_layer_depth as int,
        ),
{
    let width = network_config.hidden_layer_width;
    let depth = network_config.hidden_layer_depth;
    assert(width <= width * depth && width * (depth + 1) == width * depth + width && (width == 0
        ==> width * depth == 0)) by (nonlinear_arith)
        requires
            depth >= 1,
            width >= 0,
    ;
    let hidden_total: usize = width * depth;
    let total: usize = hidden_total + width;
    let mut genome: Vec<Gene> = Vec::new();
    let mut hidden_instances: HashMap<u16, u16> = HashMap::new();
    let mut output_instances: HashMap<u16, u16> = HashMap::new();
    while genome.len() < total
        invariant
            width <= hidden_total <= 65536,
            total == hidden_total + width,
            width == 0 ==> total == 0,
            genome.len() <= total,
            forall|i: int|
                0 <= i < genome.len() ==> #[trigger] gene_in_place(
                    genome@,
                    i,
                    width as int,
                    hidden_total as int,
                ),
            forall|d: u16|
                #[trigger] seen(hidden_instances@, d) == earlier_of_kind(
                    genome@,
                    genome.len() as int,
                    false,
                    d,
                ),
            forall|d: u16|
                #[trigger] seen(output_instances@, d) == earlier_of_kind(
                    genome@,
                    genome.len() as int,
                    true,
                    d,
                ),
            forall|d: u16| #[trigger] seen(hidden_instances@, d) <= genome.len(),
            forall|d: u16| #[trigger] seen(output_instances@, d) + hidden_total <= genome.len() || seen(output_instances@, d) == 0,
        decreases total - genome.len(),
    {
        let position = genome.len();
        let ghost before = genome@;
        let (source_is_hidden, source_discriminant, source_instance) = if position < width {
            (false, random_below(INPUT_NEURON_COUNT as u64) as u16, 0u16)
        } else {
            let previous = genome[position - width];
            assert(gene_in_place(genome@, position - width, width as int, hidden_total as int));
            (true, previous.target_discriminant, previous.target_instance)
        };
        let target_is_output = position >= hidden_total;
        let (target_discriminant, target_instance) = if target_is_output {
            let discriminant = random_below(OUTPUT_NEURON_COUNT as u64) as u16;
            assert(seen(output_instances@, discriminant) + hidden_total <= genome.len() || seen(
                output_instances@,
                discriminant,
            ) == 0);
            (discriminant, next_instance(&mut output_instances, discriminant))
        } else {
            let discriminant = random_below(HIDDEN_NEURON_COUNT as u64) as u16;
            assert(seen(hidden_instances@, discriminant) <= genome.len());
            (discriminant, next_instance(&mut hidden_instances, discriminant))
        };
        let gene = Gene {
            source_is_hidden,
            source_discriminant,
            source_instance,
            target_is_output,
            target_discriminant,
            target_instance,
            weight: random_weight(),
        };
        genome.push(gene);
        proof {
            let after = genome@;
            assert(after == before.push(gene));
            assert forall|i: int| 0 <= i < after.len() implies #[trigger] gene_in_place(
                after,
                i,
                width as int,
                hidden_total as int,
            ) by {
                lemma_earlier_of_kind_prefix(
                    before,
                    after,
                    if i < position {
                        i
                    } else {
                        position as int
                    },
                    after[i].target_is_output,
                    after[i].target_discriminant,
                );
                if i < position {
                    assert(gene_in_place(before, i, width as int, hidden_total as int));
                    assert(after[i] == before[i]);
                    if i >= width {
                        assert(after[i - width] == before[i - width]);
                    }
                } else {
                    if i >= width {
                        assert(after[i - width] == before[i - width]);
                    }
                }
            }
            assert forall|d: u16|
                #[trigger] seen(hidden_instances@, d) == earlier_of_kind(
                    after,
                    after.len() as int,
                    false,
                    d,
                ) by {
                lemma_earlier_of_kind_prefix(before, after, position as int, false, d);
            }
            assert forall|d: u16|
                #[trigger] seen(output_instances@, d) == earlier_of_kind(
                    after,
                    after.len() as int,
                    true,
                    d,
                ) by {
                lemma_earlier_of_kind_prefix(before, after, position as int, true, d);
            }
        }
    }
    genome
}

} // verus!
