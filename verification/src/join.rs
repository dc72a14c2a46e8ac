//! Opening a storage for a join.
//!
//! To run over the entities that have a payload in each of several
//! storages, a consumer opens every storage into its presence set and its
//! backend, intersects the sets, and fetches from each backend the slots
//! that are in the intersection. Fetching is unchecked: the presence set
//! that came out of the same opening is what makes it sound.

use vstd::prelude::*;
use crate::entity::Index;

verus! {

/// A storage that can be opened for a join and read slot by slot.
pub trait Join: Sized {
    /// The payloads that the storage keeps.
    type Item;

    /// The opened backend.
    type Value;

    /// The opened presence set.
    type Mask;

    /// Whether the storage may be opened.
    spec fn joinable(&self) -> bool;

    /// Whether the presence set `mask` marks slot `i`.
    spec fn marked(mask: &Self::Mask, i: Index) -> bool;

    /// Whether slot `i` may be fetched from `value`.
    spec fn fetchable(value: &Self::Value, i: Index) -> bool;

    /// What slot `i` of `value` reads as.
    spec fn payload(value: &Self::Value, i: Index) -> Self::Item;

    /// Opens the storage into its presence set and its backend. Every slot
    /// that the set marks may be fetched from the backend.
    fn open(self) -> (r: (Self::Mask, Self::Value))
        requires
            self.joinable(),
        ensures
            forall|i: Index| #[trigger] Self::marked(&r.0, i) ==> Self::fetchable(&r.1, i),
    ;

    /// Reads slot `i` without a check. The slot must be one that the
    /// presence set of the same opening marks.
    fn get<'b>(v: &'b Self::Value, i: Index) -> (r: &'b Self::Item)
        requires
            Self::fetchable(v, i),
        ensures
            *r == Self::payload(v, i),
    ;
}

/// A storage that can be opened for a join and written slot by slot.
pub trait JoinMut: Join {
    /// Lends slot `i` for writing, without a check. The slot must be one
    /// that the presence set of the same opening marks. What the borrower
    /// leaves in the slot is what it then reads as, and whatever could be
    /// fetched before can be fetched afterwards too.
    fn get_mut<'b>(v: &'b mut Self::Value, i: Index) -> (r: &'b mut Self::Item)
        requires
            Self::fetchable(&*old(v), i),
        ensures
            *r == Self::payload(&*old(v), i),
            Self::payload(&*final(v), i) == *final(r),
            forall|j: Index|
                Self::fetchable(&*old(v), j) ==> #[trigger] Self::fetchable(&*final(v), j),
    ;
}

} // verus!
