//! What holds of a storage over every sequence of its operations, stated
//! over the contents that the operations' contracts speak of.

use vstd::prelude::*;
use crate::entity::{Entity, Generation, Index};
use crate::model::{amended, fetched, inserted, is_current, removed};
use crate::storages::{HashMapStorage, VecStorage};
use crate::storage::UnprotectedStorage;
use crate::world::first_generation;

verus! {

/// The contents after each pair of `items` has been inserted, first to last.
pub open spec fn inserted_all<T>(
    m: Map<Index, T>,
    generations: Seq<Generation>,
    items: Seq<(Entity, T)>,
) -> Map<Index, T>
    decreases items.len(),
{
    if items.len() == 0 {
        m
    } else {
        inserted(
            inserted_all(m, generations, items.drop_last()),
            generations,
            items.last().0,
            items.last().1,
        )
    }
}

/// The contents after each entity of `entities` has been removed, first to
/// last.
pub open spec fn removed_all<T>(
    m: Map<Index, T>,
    generations: Seq<Generation>,
    entities: Seq<Entity>,
) -> Map<Index, T>
    decreases entities.len(),
{
    if entities.len() == 0 {
        m
    } else {
        removed(removed_all(m, generations, entities.drop_last()), generations, entities.last())
    }
}

/// An entity of the first generation is current as long as the allocator
/// has recorded nothing for its slot.
pub proof fn lemma_fresh_entity_is_current(generations: Seq<Generation>, e: Entity)
    requires
        generations.len() <= e.id(),
        e.gen() == first_generation(),
    ensures
        is_current(generations, e),
{
}

/// Round trip: after any number of current entities with slots of their
/// own have been inserted, each with a payload, reading any of them yields
/// the payload that was inserted for it.
pub proof fn law_round_trip<T>(
    m: Map<Index, T>,
    generations: Seq<Generation>,
    items: Seq<(Entity, T)>,
    k: int,
)
    requires
        0 <= k < items.len(),
        forall|i: int| 0 <= i < items.len() ==> is_current(generations, (#[trigger] items[i]).0),
        forall|i: int, j: int|
            0 <= i < j < items.len() ==> (#[trigger] items[i]).0.id() != (#[trigger] items[j]).0.id(),
    ensures
        fetched(inserted_all(m, generations, items), generations, items[k].0) == Some(items[k].1),
    decreases items.len(),
{
    let front = items.drop_last();
    if k < items.len() - 1 {
        assert(front[k] == items[k]);
        assert forall|i: int| 0 <= i < front.len() implies is_current(
            generations,
            (#[trigger] front[i]).0,
        ) by {
            assert(front[i] == items[i]);
        }
        assert forall|i: int, j: int| 0 <= i < j < front.len() implies (#[trigger] front[i]).0.id()
            != (#[trigger] front[j]).0.id() by {
            assert(front[i] == items[i]);
            assert(front[j] == items[j]);
        }
        law_round_trip(m, generations, front, k);
        assert(items[k].0.id() != items.last().0.id());
    }
}

/// Removal is exhaustive and idempotent: after every entity of a list has
/// been removed, no entity of the list reads as anything, and to remove one
/// of them once more yields nothing and changes nothing.
pub proof fn law_removal_is_exhaustive<T>(
    m: Map<Index, T>,
    generations: Seq<Generation>,
    entities: Seq<Entity>,
    k: int,
)
    requires
        0 <= k < entities.len(),
    ensures
        fetched(removed_all(m, generations, entities), generations, entities[k]) is None,
        removed(removed_all(m, generations, entities), generations, entities[k]) == removed_all(
            m,
            generations,
            entities,
        ),
    decreases entities.len(),
{
    let front = entities.drop_last();
    let rest = removed_all(m, generations, front);
    let all = removed_all(m, generations, entities);
    if k < entities.len() - 1 {
        assert(front[k] == entities[k]);
        law_removal_is_exhaustive(m, generations, front, k);
    }
    assert(!is_current(generations, entities[k]) || !all.contains_key(entities[k].id()));
    assert(removed(all, generations, entities[k]) =~= all);
}

/// An insert under a stale generation is a no-op: it leaves the contents as
/// they are, so the stale entity reads as nothing and the entity that is
/// current for the slot reads as before.
pub proof fn law_stale_insert_is_noop<T>(
    m: Map<Index, T>,
    generations: Seq<Generation>,
    live: Entity,
    stale: Entity,
    v: T,
)
    requires
        !is_current(generations, stale),
    ensures
        inserted(m, generations, stale, v) == m,
        fetched(inserted(m, generations, stale, v), generations, stale) is None,
        fetched(inserted(m, generations, stale, v), generations, live) == fetched(
            m,
            generations,
            live,
        ),
{
}

/// Mutation persists: once the payload of a readable entity has been
/// changed in place, reading the entity yields the changed payload, and
/// every other slot reads as before.
pub proof fn law_mutation_persists<T>(
    m: Map<Index, T>,
    generations: Seq<Generation>,
    e: Entity,
    v: T,
    other: Entity,
)
    requires
        fetched(m, generations, e) is Some,
        other.id() != e.id(),
    ensures
        fetched(amended(m, e.id(), v), generations, e) == Some(v),
        fetched(amended(m, e.id(), v), generations, other) == fetched(m, generations, other),
{
}

/// Clear empties unconditionally: in the contents that a clear leaves, no
/// entity reads as anything, whether it is current or not.
pub proof fn law_clear_empties<T>(generations: Seq<Generation>, e: Entity)
    ensures
        fetched(Map::<Index, T>::empty(), generations, e) is None,
{
}

/// The vector backend and the hash map backend both keep a payload per
/// slot. The contracts of a storage speak of its contents alone wherever
/// the backend does so; hence a storage behaves the same over either, and
/// the laws above hold of both.
pub proof fn law_backends_agree<T>()
    ensures
        VecStorage::<T>::distinct(),
        HashMapStorage::<T>::distinct(),
{
}

} // verus!
