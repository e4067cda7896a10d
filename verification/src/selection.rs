use vstd::prelude::*;

use crate::entity::Entity;
use crate::entity_config::EntityConfig;
use crate::genome::mutation::RATE_ONE;
use crate::scenario::scenario::Scenario;

verus! {

/// What agents are ranked by.
#[derive(Clone, Copy, Debug, PartialEq, Eq, Structural)]
pub enum Ranking {
    /// How often the agent has eaten.
    TimesEaten,
    /// Twice the times eaten, less the times irradiated.
    Score,
}

/// An agent's score: twice the times it has eaten, less the times it was
/// irradiated.
pub open spec fn score_of(entity: Entity) -> int {
    entity.times_eaten * 2 - entity.times_irradiated
}

/// The number that a ranking orders an agent by.
pub open spec fn rank_key(ranking: Ranking, entity: Entity) -> int {
    match ranking {
        Ranking::TimesEaten => entity.times_eaten as int,
        Ranking::Score => score_of(entity),
    }
}

/// Where an agent with a given key enters a ranked list: behind the last
/// agent whose key is at least as great.
pub open spec fn entry_point(ranked: Seq<Entity>, ranking: Ranking, key: int) -> int
    decreases ranked.len(),
{
    if ranked.len() == 0 {
        0
    } else if rank_key(ranking, ranked.last()) >= key {
        ranked.len() as int
    } else {
        entry_point(ranked.drop_last(), ranking, key)
    }
}

/// The agents from the greatest key to the least; agents with equal keys
/// keep the order that they came in.
pub open spec fn ranked(entities: Seq<Entity>, ranking: Ranking) -> Seq<Entity>
    decreases entities.len(),
{
    if entities.len() == 0 {
        Seq::empty()
    } else {
        let earlier = ranked(entities.drop_last(), ranking);
        earlier.insert(
            entry_point(earlier, ranking, rank_key(ranking, entities.last())),
            entities.last(),
        )
    }
}

/// Whether an agent survives a generation: it lives, and it has eaten where
/// the scenario culls the starving.
pub open spec fn survives(entity: Entity, scenario: Scenario) -> bool {
    match scenario.food {
        Some(food) => entity.body.is_alive && (!food.cull_for_starvation || entity.times_eaten > 0),
        None => entity.body.is_alive,
    }
}

/// The test that `select_survivors` keeps agents by.
pub open spec fn survival(scenario: Scenario) -> spec_fn(Entity) -> bool {
    |entity: Entity| survives(entity, scenario)
}

/// Number of survivors that breed.
pub open spec fn pool_size(scenario: Scenario, entity_config: EntityConfig, survivors: int) -> int {
    if scenario.limit_population {
        entity_config.start_count as int
    } else {
        survivors * entity_config.survivor_breed_rate / (RATE_ONE as int)
    }
}

/// The agents that breed among the survivors: those with the best scores,
/// as many as the pool holds.
pub open spec fn breeding_pool(
    scenario: Scenario,
    entity_config: EntityConfig,
    survivors: Seq<Entity>,
) -> Seq<Entity> {
    let by_score = ranked(survivors, Ranking::Score);
    let size = pool_size(scenario, entity_config, survivors.len() as int);
    if size < by_score.len() {
        by_score.take(size)
    } else {
        by_score
    }
}

proof fn lemma_entry_point(ranked: Seq<Entity>, ranking: Ranking, key: int, point: int)
    requires
        0 <= point <= ranked.len(),
        forall|j: int| point <= j < ranked.len() ==> rank_key(ranking, #[trigger] ranked[j]) < key,
        point > 0 ==> rank_key(ranking, ranked[point - 1]) >= key,
    ensures
        entry_point(ranked, ranking, key) == point,
    decreases ranked.len(),
{
    if ranked.len() > 0 && point < ranked.len() {
        assert(rank_key(ranking, ranked[ranked.len() - 1]) < key);
        lemma_entry_point(ranked.drop_last(), ranking, key, point);
    }
}

/// A ranked list holds the agents that came in, each as often as it came.
pub proof fn ranked_is_a_permutation(entities: Seq<Entity>, ranking: Ranking)
    ensures
        ranked(entities, ranking).len() == entities.len(),
        ranked(entities, ranking).to_multiset() == entities.to_multiset(),
    decreases entities.len(),
{
    if entities.len() > 0 {
        let earlier = ranked(entities.drop_last(), ranking);
        let last = entities.last();
        let point = entry_point(earlier, ranking, rank_key(ranking, last));
        let after = earlier.insert(point, last);
        ranked_is_a_permutation(entities.drop_last(), ranking);
        lemma_entry_point_in_range(earlier, ranking, rank_key(ranking, last));
        assert(after.remove(point) =~= earlier);
        assert(after[point] == last);
        vstd::seq_lib::to_multiset_remove(after, point);
        vstd::seq_lib::to_multiset_build(entities.drop_last(), last);
        after.to_multiset_ensures();
        assert(after.contains(last));
        assert(after.to_multiset().count(last) > 0);
        assert(after.to_multiset() =~= earlier.to_multiset().insert(last));
        assert(entities =~= entities.drop_last().push(last));
    } else {
        assert(ranked(entities, ranking) =~= entities);
    }
}

proof fn lemma_entry_point_in_range(ranked: Seq<Entity>, ranking: Ranking, key: int)
    ensures
        0 <= entry_point(ranked, ranking, key) <= ranked.len(),
        forall|j: int|
            entry_point(ranked, ranking, key) <= j < ranked.len() ==> rank_key(
                ranking,
                #[trigger] ranked[j],
            ) < key,
        entry_point(ranked, ranking, key) > 0 ==> rank_key(
            ranking,
            ranked[entry_point(ranked, ranking, key) - 1],
        ) >= key,
    decreases ranked.len(),
{
    if ranked.len() > 0 && rank_key(ranking, ranked.last()) < key {
        let shorter = ranked.drop_last();
        lemma_entry_point_in_range(shorter, ranking, key);
        assert forall|j: int| entry_point(ranked, ranking, key) <= j < ranked.len() implies rank_key(
            ranking,
            #[trigger] ranked[j],
        ) < key by {
            if j < shorter.len() {
                assert(ranked[j] == shorter[j]);
            }
        }
        if entry_point(ranked, ranking, key) > 0 {
            assert(ranked[entry_point(ranked, ranking, key) - 1] == shorter[entry_point(
                shorter,
                ranking,
                key,
            ) - 1]);
        }
    }
}

/// In a ranked list no agent stands behind one with a smaller key.
pub proof fn ranked_is_ordered(entities: Seq<Entity>, ranking: Ranking)
    ensures
        forall|a: int, b: int|
            0 <= a <= b < ranked(entities, ranking).len() ==> rank_key(
                ranking,
                #[trigger] ranked(entities, ranking)[a],
            ) >= rank_key(ranking, #[trigger] ranked(entities, ranking)[b]),
    decreases entities.len(),
{
    if entities.len() > 0 {
        let earlier = ranked(entities.drop_last(), ranking);
        let key = rank_key(ranking, entities.last());
        let point = entry_point(earlier, ranking, key);
        let after = ranked(entities, ranking);
        ranked_is_ordered(entities.drop_last(), ranking);
        lemma_entry_point_in_range(earlier, ranking, key);
        assert forall|a: int, b: int| 0 <= a <= b < after.len() implies rank_key(
            ranking,
            #[trigger] after[a],
        ) >= rank_key(ranking, #[trigger] after[b]) by {
            let before_a = if a < point {
                a
            } else {
                a - 1
            };
            let before_b = if b < point {
                b
            } else {
                b - 1
            };
            if a != point && b != point {
                assert(after[a] == earlier[before_a]);
                assert(after[b] == earlier[before_b]);
            } else if a == point && b != point {
                assert(after[b] == earlier[before_b]);
            } else if a != point && b == point {
                assert(after[a] == earlier[before_a]);
                if point > 0 {
                    assert(rank_key(ranking, earlier[before_a]) >= rank_key(
                        ranking,
                        earlier[point - 1],
                    ));
                }
            }
        }
    }
}

/// The number that a ranking orders an agent by.
fn key_of(ranking: Ranking, entity: &Entity) -> (key: i64)
    ensures
        key == rank_key(ranking, *entity),
{
    match ranking {
        Ranking::TimesEaten => entity.times_eaten as i64,
        Ranking::Score => entity.times_eaten as i64 * 2 - entity.times_irradiated as i64,
    }
}

/// Ranks agents from the greatest key to the least; agents with equal keys
/// keep their order.
pub fn rank_entities(entities: Vec<Entity>, ranking: Ranking) -> (sorted: Vec<Entity>)
    ensures
        sorted@ == ranked(entities@, ranking),
{
    let mut sorted = entities;
    let ghost original = sorted@;
    let mut i: usize = 0;
    assert(sorted@.take(0) =~= ranked(original.take(0), ranking));
    while i < sorted.len()
        invariant
            i <= sorted.len(),
            sorted@.len() == original.len(),
            sorted@.take(i as int) == ranked(original.take(i as int), ranking),
            sorted@.skip(i as int) == original.skip(i as int),
        decreases sorted.len() - i,
    {
        let key = key_of(ranking, &sorted[i]);
        let ghost prefix = sorted@.take(i as int);
        let ghost before = sorted@;
        let mut point: usize = i;
        while point > 0 && key_of(ranking, &sorted[point - 1]) < key
            invariant
                point <= i < sorted.len(),
                sorted@ == before,
                forall|j: int| point <= j < i ==> rank_key(ranking, #[trigger] sorted@[j]) < key,
            decreases point,
        {
            point -= 1;
        }
        let entity = sorted.remove(i);
        sorted.insert(point, entity);
        proof {
            assert(entity == original[i as int]) by {
                assert(before.skip(i as int)[0] == original.skip(i as int)[0]);
            }
            assert forall|j: int| point <= j < prefix.len() implies rank_key(
                ranking,
                #[trigger] prefix[j],
            ) < key by {
                assert(prefix[j] == before[j]);
            }
            if point > 0 {
                assert(prefix[point - 1] == before[point - 1]);
            }
            lemma_entry_point(prefix, ranking, key as int, point as int);
            let next = original.take(i + 1);
            assert(next.drop_last() =~= original.take(i as int));
            assert(next.last() == original[i as int]);
            assert(sorted@.take(i + 1) =~= prefix.insert(point as int, entity));
            let tail = sorted@.skip(i + 1);
            let rest = original.skip(i + 1);
            assert(tail =~= rest) by {
                assert forall|j: int| 0 <= j < rest.len() implies #[trigger] tail[j] == rest[j] by {
                    assert(before.skip(i as int)[j + 1] == original.skip(i as int)[j + 1]);
                }
            }
        }
        i += 1;
    }
    assert(sorted@.take(sorted@.len() as int) =~= sorted@);
    assert(original.take(original.len() as int) =~= original);
    sorted
}

/// Whether an agent survives a generation.
pub fn survival_filter(entity: &Entity, scenario: &Scenario) -> (answer: bool)
    ensures
        answer == survives(*entity, *scenario),
{
    match &scenario.food {
        Some(food) => {
            let food_selection = if food.cull_for_starvation {
                entity.times_eaten > 0
            } else {
                true
            };
            entity.body.is_alive && food_selection
        },
        None => entity.body.is_alive,
    }
}

/// Keeps the agents that survive, in their order.
pub fn select_survivors(scenario: &Scenario, entities: Vec<Entity>) -> (survivors: Vec<Entity>)
    ensures
        survivors@ == entities@.filter(survival(*scenario)),
{
    let mut survivors = entities;
    let ghost original = survivors@;
    let ghost mut seen: int = 0;
    let mut i: usize = 0;
    proof {
        reveal(Seq::filter);
        assert(original.take(0) =~= Seq::<Entity>::empty());
        assert(survivors@.take(0) =~= Seq::<Entity>::empty());
    }
    while i < survivors.len()
        invariant
            i <= survivors.len(),
            0 <= seen <= original.len(),
            survivors@.len() - i == original.len() - seen,
            survivors@.take(i as int) == original.take(seen).filter(survival(*scenario)),
            survivors@.skip(i as int) == original.skip(seen),
        decreases survivors.len() - i,
    {
        let ghost before = survivors@;
        proof {
            reveal(Seq::filter);
            assert(original.take(seen + 1).drop_last() =~= original.take(seen));
            assert(before[i as int] == before.skip(i as int)[0]);
            assert(original[seen] == original.skip(seen)[0]);
        }
        if survival_filter(&survivors[i], scenario) {
            proof {
                assert(survivors@.take(i + 1) =~= survivors@.take(i as int).push(original[seen]));
                let tail = survivors@.skip(i + 1);
                let rest = original.skip(seen + 1);
                assert(tail =~= rest) by {
                    assert forall|j: int| 0 <= j < rest.len() implies #[trigger] tail[j]
                        == rest[j] by {
                        assert(before.skip(i as int)[j + 1] == original.skip(seen)[j + 1]);
                    }
                }
            }
            i += 1;
        } else {
            survivors.remove(i);
            proof {
                assert(survivors@.take(i as int) =~= before.take(i as int));
                let tail = survivors@.skip(i as int);
                let rest = original.skip(seen + 1);
                assert(tail =~= rest) by {
                    assert forall|j: int| 0 <= j < rest.len() implies #[trigger] tail[j]
                        == rest[j] by {
                        assert(before.skip(i as int)[j + 1] == original.skip(seen)[j + 1]);
                    }
                }
            }
        }
        proof {
            seen = seen + 1;
        }
    }
    assert(survivors@.take(survivors@.len() as int) =~= survivors@);
    assert(original.take(original.len() as int) =~= original);
    survivors
}

/// An agent's score.
pub fn calculate_score(entity: &Entity) -> (score: i64)
    ensures
        score == score_of(*entity),
{
    key_of(Ranking::Score, entity)
}

/// Picks the agents that breed: the survivors with the best scores, as
/// many as the start count where the scenario limits the population, and
/// else the share of the survivors that the breed rate states.
pub fn select_breeders(scenario: &Scenario, entity_config: &EntityConfig, survivors: Vec<Entity>) -> (breeders:
    Vec<Entity>)
    ensures
        breeders@ == breeding_pool(*scenario, *entity_config, survivors@),
{
    let count = survivors.len();
    let mut breeders = rank_entities(survivors, Ranking::Score);
    proof {
        ranked_is_a_permutation(survivors@, Ranking::Score);
    }
    let size: u128 = if scenario.limit_population {
        entity_config.start_count as u128
    } else {
        assert(count * entity_config.survivor_breed_rate <= 0xffff_ffff_ffff_ffff * 0xffff_ffff)
            by (nonlinear_arith)
            requires
                0 <= count <= 0xffff_ffff_ffff_ffff,
                0 <= entity_config.survivor_breed_rate <= 0xffff_ffff,
        ;
        count as u128 * entity_config.survivor_breed_rate as u128 / RATE_ONE as u128
    };
    if size < breeders.len() as u128 {
        breeders.truncate(size as usize);
        assert(breeders@ =~= ranked(survivors@, Ranking::Score).take(size as int));
    }
    breeders
}

} // verus!
