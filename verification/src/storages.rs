//! The backends that come with the library.

use vstd::prelude::*;
use std::collections::HashMap;
use std::hash::BuildHasherDefault;
use fnv::FnvHasher;
use crate::entity::Index;
use crate::storage::UnprotectedStorage;
use crate::trusted::{fnv_map_get, fnv_map_get_mut, fnv_map_insert, fnv_map_new, fnv_map_remove};

verus! {

/// Backend that keeps the payloads in a hash map from slot to payload.
/// Suits payloads that few entities have.
pub struct HashMapStorage<T>(HashMap<Index, T, BuildHasherDefault<FnvHasher>>);

impl<T> HashMapStorage<T> {
    /// The entries of the map.
    pub closed spec fn view(&self) -> Map<Index, T> {
        self.0@
    }
}

impl<T> UnprotectedStorage<T> for HashMapStorage<T> {
    open spec fn inv(&self) -> bool {
        true
    }

    open spec fn holds(&self, id: Index) -> bool {
        self@.contains_key(id)
    }

    open spec fn payload(&self, id: Index) -> T {
        self@[id]
    }

    open spec fn hands_out(&self, id: Index, r: T) -> bool {
        r == self@[id]
    }

    open spec fn fresh(&self) -> bool {
        self@ == Map::<Index, T>::empty()
    }

    open spec fn cleaned(&self, before: Self) -> bool {
        self@ == before@
    }

    open spec fn distinct() -> bool {
        true
    }

    proof fn lemma_shared_payload(&self, i: Index, j: Index) {
    }

    fn new() -> (s: Self)
        ensures
            s@ == (Map::<Index, T>::empty()),
    {
        HashMapStorage(fnv_map_new())
    }

    fn clean<F: Fn(Index) -> bool>(&mut self, marked: F)
        ensures
            final(self)@ == old(self)@,
    {
        // the map holds an entry only for a slot that was written
    }

    fn get(&self, id: Index) -> (r: &T) {
        fnv_map_get(&self.0, id).unwrap()
    }

    fn get_mut(&mut self, id: Index) -> (r: &mut T)
        ensures
            final(self)@ == old(self)@.insert(id, *final(r)),
    {
        fnv_map_get_mut(&mut self.0, id).unwrap()
    }

    fn insert(&mut self, id: Index, v: T)
        ensures
            final(self)@ == old(self)@.insert(id, v),
    {
        fnv_map_insert(&mut self.0, id, v);
    }

    fn remove(&mut self, id: Index) -> (r: T)
        ensures
            final(self)@ == old(self)@.remove(id),
    {
        fnv_map_remove(&mut self.0, id).unwrap()
    }
}

/// Backend that keeps the payloads in a vector, at the position of their
/// slot. Suits payloads that most entities have.
///
/// The vector reaches as far as the highest slot that was ever written. A
/// position in it is empty until its slot is written, and again once the
/// payload has been taken out.
pub struct VecStorage<T>(Vec<Option<T>>);

impl<T> VecStorage<T> {
    /// The positions of the vector, each with the payload it holds or empty.
    pub closed spec fn view(&self) -> Seq<Option<T>> {
        self.0@
    }
}

impl<T> UnprotectedStorage<T> for VecStorage<T> {
    open spec fn inv(&self) -> bool {
        self@.len() <= u32::MAX + 1
    }

    open spec fn holds(&self, id: Index) -> bool {
        id < self@.len() && self@[id as int] is Some
    }

    open spec fn payload(&self, id: Index) -> T {
        self@[id as int]->0
    }

    open spec fn hands_out(&self, id: Index, r: T) -> bool {
        r == self@[id as int]->0
    }

    open spec fn fresh(&self) -> bool {
        self@ == Seq::<Option<T>>::empty()
    }

    open spec fn cleaned(&self, before: Self) -> bool {
        self@ == Seq::<Option<T>>::empty()
    }

    open spec fn distinct() -> bool {
        true
    }

    proof fn lemma_shared_payload(&self, i: Index, j: Index) {
    }

    fn new() -> (s: Self)
        ensures
            s@ == (Seq::<Option<T>>::empty()),
    {
        VecStorage(Vec::new())
    }

    fn clean<F: Fn(Index) -> bool>(&mut self, marked: F)
        ensures
            final(self)@ == (Seq::<Option<T>>::empty()),
    {
        let n: usize = self.0.len();
        let mut i: usize = 0;
        while i < n
            invariant
                i <= n,
                n == self.0@.len(),
                n <= u32::MAX + 1,
                forall|j: Index| call_requires(marked, (j,)),
            decreases n - i,
        {
            let slot: Option<T> = self.0[i].take();
            if !marked(i as Index) {
                // nothing was marked here: whatever the slot held is given
                // up, not destroyed
                core::mem::forget(slot);
            }
            i += 1;
        }
        self.0.clear();
    }

    fn get(&self, id: Index) -> (r: &T) {
        self.0[id as usize].as_ref().unwrap()
    }

    fn get_mut(&mut self, id: Index) -> (r: &mut T)
        ensures
            final(self)@ == old(self)@.update(id as int, Some(*final(r))),
    {
        self.0[id as usize].as_mut().unwrap()
    }

    fn insert(&mut self, id: Index, v: T)
        ensures
            final(self)@ == grown(old(self)@, id as nat + 1).update(id as int, Some(v)),
    {
        let at: usize = id as usize;
        while self.0.len() <= at
            invariant
                old(self).0@.len() <= self.0@.len(),
                self.0@.len() <= old(self).0@.len() || self.0@.len() <= at + 1,
                self.0@ == grown(old(self).0@, self.0@.len()),
            decreases at + 1 - self.0@.len(),
        {
            self.0.push(None);
            proof {
                assert(self.0@ =~= grown(old(self).0@, self.0@.len()));
            }
        }
        proof {
            assert(self.0@ =~= grown(old(self).0@, id as nat + 1));
        }
        self.0[at] = Some(v);
    }

    fn remove(&mut self, id: Index) -> (r: T)
        ensures
            final(self)@ == old(self)@.update(id as int, None),
    {
        self.0[id as usize].take().unwrap()
    }
}

/// The positions `s`, with empty ones added at the end until there are
/// `len` of them; `s` itself if it has that many.
pub open spec fn grown<T>(s: Seq<Option<T>>, len: nat) -> Seq<Option<T>> {
    if s.len() >= len {
        s
    } else {
        Seq::new(
            len,
            |j: int|
                if j < s.len() {
                    s[j]
                } else {
                    None
                },
        )
    }
}

/// Backend for payloads that carry no data and only mark an entity. It
/// keeps a single payload, which every slot reads as. A new backend keeps
/// a default value of the payload's type.
pub struct DummyStorage<T>(T);

impl<T> DummyStorage<T> {
    /// The payload that every slot reads as.
    pub closed spec fn view(&self) -> T {
        self.0
    }
}

impl<T: Clone + Default> UnprotectedStorage<T> for DummyStorage<T> {
    open spec fn inv(&self) -> bool {
        true
    }

    open spec fn holds(&self, id: Index) -> bool {
        true
    }

    open spec fn payload(&self, id: Index) -> T {
        self@
    }

    open spec fn hands_out(&self, id: Index, r: T) -> bool {
        cloned(self@, r)
    }

    open spec fn fresh(&self) -> bool {
        call_ensures(T::default, (), self@)
    }

    open spec fn cleaned(&self, before: Self) -> bool {
        self@ == before@
    }

    open spec fn distinct() -> bool {
        false
    }

    proof fn lemma_shared_payload(&self, i: Index, j: Index) {
    }

    fn new() -> (s: Self)
        ensures
            call_ensures(T::default, (), s@),
    {
        DummyStorage(Default::default())
    }

    fn clean<F: Fn(Index) -> bool>(&mut self, marked: F)
        ensures
            final(self)@ == old(self)@,
    {
    }

    fn get(&self, id: Index) -> (r: &T) {
        &self.0
    }

    fn get_mut(&mut self, id: Index) -> (r: &mut T)
        ensures
            final(self)@ == *final(r),
    {
        &mut self.0
    }

    fn insert(&mut self, id: Index, v: T)
        ensures
            final(self)@ == old(self)@,
    {
    }

    fn remove(&mut self, id: Index) -> (r: T)
        ensures
            final(self)@ == old(self)@,
    {
        self.0.clone()
    }
}

} // verus!
