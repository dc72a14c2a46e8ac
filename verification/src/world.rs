//! The allocator's generation table, as far as storages consult it.

use vstd::prelude::*;
use crate::entity::{Generation, Index};
use crate::storage::UnprotectedStorage;

verus! {

/// Generation that a slot has before the allocator has recorded one for it.
pub open spec fn first_generation() -> Generation {
    Generation(1)
}

/// The generation that the table `generations` holds for slot `index`:
/// the recorded one, or the first generation where none is recorded.
pub open spec fn current_generation(generations: Seq<Generation>, index: Index) -> Generation {
    if index < generations.len() {
        generations[index as int]
    } else {
        first_generation()
    }
}

/// Table of the generation that is current for each slot.
///
/// Issuing and recycling entities is not this library's business: a storage
/// only reads the table.
pub struct Allocator {
    /// Current generation by slot; slots past the end are in their first generation.
    pub generations: Vec<Generation>,
}

impl Allocator {
    /// An allocator that has recorded no generation yet.
    pub fn new() -> (a: Allocator)
        ensures
            a.generations@ == Seq::<Generation>::empty(),
    {
        Allocator { generations: Vec::new() }
    }
}

/// A type of payload. It names the backend that holds its values; the
/// choice is made once, here, and holds for every storage of the type.
pub trait Component: Sized {
    /// Backend that the payloads of this type are kept in.
    type Storage: UnprotectedStorage<Self>;
}

} // verus!
