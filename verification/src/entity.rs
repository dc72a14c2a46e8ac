//! Entities: a slot index paired with the generation of that slot.

use vstd::prelude::*;

verus! {

/// Slot of an entity. Payloads are stored by it.
pub type Index = u32;

/// Number of slots that entities can name: the slot of an entity lies below
/// it. To make an entity of a slot beyond is an error of the caller.
pub const INDEX_CAPACITY: Index = 0x0100_0000;

/// Tag that tells the successive owners of one slot apart.
#[derive(Clone, Copy, Debug, PartialEq, Eq, Structural, Hash)]
pub struct Generation(pub i32);

/// Handle of a logical object: a slot and the generation it was issued under.
#[derive(Clone, Copy, Debug, PartialEq, Eq, Structural, Hash)]
pub struct Entity(Index, Generation);

impl Entity {
    #[verifier::type_invariant]
    spec fn within_capacity(self) -> bool {
        self.0 < INDEX_CAPACITY
    }

    /// Slot of this entity, for contracts.
    pub closed spec fn id(self) -> Index {
        self.0
    }

    /// Generation of this entity, for contracts.
    pub closed spec fn gen(self) -> Generation {
        self.1
    }

    /// Makes the entity of slot `index` and generation `gen`. The slot must
    /// lie within the capacity.
    pub fn new(index: Index, gen: Generation) -> (e: Entity)
        requires
            index < INDEX_CAPACITY,
        ensures
            e.id() == index,
            e.gen() == gen,
    {
        Entity(index, gen)
    }

    /// Returns the slot of this entity, which lies within the capacity.
    pub fn get_id(&self) -> (index: Index)
        ensures
            index == self.id(),
            index < INDEX_CAPACITY,
    {
        proof {
            use_type_invariant(self);
        }
        self.0
    }

    /// Returns the generation of this entity.
    pub fn get_gen(&self) -> (gen: Generation)
        ensures
            gen == self.gen(),
    {
        self.1
    }
}

} // verus!
