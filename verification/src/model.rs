//! The contents of a storage as a map from slot to payload, and what the
//! operations of a storage make of such a map.
//!
//! The functions here speak of a storage whose backend keeps a payload per
//! slot. [`uniform`] describes the contents over a backend that keeps one
//! payload for all slots.

use vstd::prelude::*;
use crate::entity::{Entity, Generation, Index};
use crate::world::current_generation;

verus! {

/// Whether `e` carries the generation that the table `generations` holds
/// for its slot. Only such an entity reaches the payloads.
pub open spec fn is_current(generations: Seq<Generation>, e: Entity) -> bool {
    e.gen() == current_generation(generations, e.id())
}

/// What reading `e` yields: the payload of its slot, if the slot has one
/// and `e` is current.
pub open spec fn fetched<T>(m: Map<Index, T>, generations: Seq<Generation>, e: Entity) -> Option<
    T,
> {
    if m.contains_key(e.id()) && is_current(generations, e) {
        Some(m[e.id()])
    } else {
        None
    }
}

/// The contents after `v` is inserted for `e`: `v` is the payload of the
/// slot of `e` if `e` is current, and nothing changes if it is not.
pub open spec fn inserted<T>(
    m: Map<Index, T>,
    generations: Seq<Generation>,
    e: Entity,
    v: T,
) -> Map<Index, T> {
    if is_current(generations, e) {
        m.insert(e.id(), v)
    } else {
        m
    }
}

/// The contents after `e` is removed: the slot of `e` has no payload if `e`
/// is current, and nothing changes if it is not.
pub open spec fn removed<T>(m: Map<Index, T>, generations: Seq<Generation>, e: Entity) -> Map<
    Index,
    T,
> {
    if is_current(generations, e) {
        m.remove(e.id())
    } else {
        m
    }
}

/// The contents after the payload of slot `id` was changed to `v` in place.
pub open spec fn amended<T>(m: Map<Index, T>, id: Index, v: T) -> Map<Index, T> {
    m.insert(id, v)
}

/// The contents of a storage that has a payload for the slots in `dom`, all
/// of them reading `v`.
pub open spec fn uniform<T>(dom: Set<Index>, v: T) -> Map<Index, T> {
    Map::new(|j: Index| dom.contains(j), |j: Index| v)
}

} // verus!
