//! Storages: a raw backend behind a presence set, behind a generation check.

use vstd::prelude::*;
use std::marker::PhantomData;
use crate::access::{Exclusive, Shared};
use crate::bitset::BitSet;
use crate::entity::{Entity, Generation, Index};
use crate::join::{Join, JoinMut};
use crate::model::{amended, fetched, inserted, is_current, removed, uniform};
use crate::world::{Allocator, Component};

verus! {

/// Raw storage of payloads by slot.
///
/// A backend does not check anything. Its caller keeps a presence set and
/// asks only for slots which that set marks; [`holds`](Self::holds) is the
/// backend's side of this agreement.
pub trait UnprotectedStorage<T>: Sized {
    /// What the backend relies on between calls.
    spec fn inv(&self) -> bool;

    /// Whether slot `id` holds a payload that may be read.
    spec fn holds(&self, id: Index) -> bool;

    /// The payload that slot `id` reads as.
    spec fn payload(&self, id: Index) -> T;

    /// Whether `r` may be what comes out when the payload of slot `id` is
    /// taken: the payload itself with a distinct backend, a copy of the one
    /// payload with another.
    spec fn hands_out(&self, id: Index, r: T) -> bool;

    /// Whether the backend is as a new one is.
    spec fn fresh(&self) -> bool;

    /// Whether the backend is what a cleanup pass leaves of `before`.
    spec fn cleaned(&self, before: Self) -> bool;

    /// Whether each slot keeps a payload of its own. A backend that does
    /// not do so keeps one payload that every slot reads as, and drops what
    /// is written to it.
    spec fn distinct() -> bool;

    /// A backend that is not distinct reads the same at every slot.
    proof fn lemma_shared_payload(&self, i: Index, j: Index)
        requires
            self.inv(),
        ensures
            !Self::distinct() ==> self.payload(i) == self.payload(j),
    ;

    /// Creates a backend. One that keeps a payload per slot starts out
    /// holding none.
    fn new() -> (s: Self)
        ensures
            s.inv(),
            s.fresh(),
            Self::distinct() ==> forall|j: Index| !s.holds(j),
    ;

    /// The cleanup pass: gives up the slots for which `marked` answers no
    /// without destroying what is in them. `marked` may answer yes only for
    /// slots that hold a payload. Nothing is added to the backend, and what
    /// stays reads as before.
    fn clean<F: Fn(Index) -> bool>(&mut self, marked: F)
        requires
            old(self).inv(),
            forall|j: Index| call_requires(marked, (j,)),
            forall|j: Index| call_ensures(marked, (j,), true) ==> old(self).holds(j),
        ensures
            final(self).inv(),
            final(self).cleaned(*old(self)),
            forall|j: Index| #[trigger] final(self).holds(j) ==> old(self).holds(j),
            forall|j: Index|
                final(self).holds(j) || !Self::distinct() ==> #[trigger] final(self).payload(j)
                    == old(self).payload(j),
    ;

    /// Reads slot `id`, which must hold a payload.
    fn get(&self, id: Index) -> (r: &T)
        requires
            self.inv(),
            self.holds(id),
        ensures
            *r == self.payload(id),
    ;

    /// Lends slot `id`, which must hold a payload, for writing. What the
    /// borrower leaves there is what the slot then reads as; with a backend
    /// that is not distinct, every slot does.
    fn get_mut(&mut self, id: Index) -> (r: &mut T)
        requires
            old(self).inv(),
            old(self).holds(id),
        ensures
            *r == old(self).payload(id),
            final(self).inv(),
            forall|j: Index| #[trigger] final(self).holds(j) == old(self).holds(j),
            forall|j: Index|
                final(self).holds(j) ==> #[trigger] final(self).payload(j) == if j == id
                    || !Self::distinct() {
                    *final(r)
                } else {
                    old(self).payload(j)
                },
    ;

    /// Writes `v` to slot `id`, which then holds a payload. A distinct
    /// backend reads `v` there from now on; another one drops `v`.
    fn insert(&mut self, id: Index, v: T)
        requires
            old(self).inv(),
        ensures
            final(self).inv(),
            forall|j: Index| #[trigger] final(self).holds(j) == (j == id || old(self).holds(j)),
            forall|j: Index|
                final(self).holds(j) ==> #[trigger] final(self).payload(j) == if j == id
                    && Self::distinct() {
                    v
                } else {
                    old(self).payload(j)
                },
    ;

    /// Takes the payload out of slot `id`, which must hold one. A distinct
    /// backend hands out what the slot read as, and holds nothing there
    /// afterwards; another one stays as it was.
    fn remove(&mut self, id: Index) -> (r: T)
        requires
            old(self).inv(),
            old(self).holds(id),
        ensures
            final(self).inv(),
            old(self).hands_out(id, r),
            Self::distinct() ==> r == old(self).payload(id),
            forall|j: Index| #[trigger]
                final(self).holds(j) == (old(self).holds(j) && !(j == id && Self::distinct())),
            forall|j: Index|
                final(self).holds(j) ==> #[trigger] final(self).payload(j) == old(self).payload(j),
    ;
}

/// A backend together with the set of the slots that are in use in it.
///
/// The two are kept in step: while the storage is well formed, every slot
/// that the set marks holds a payload in the backend.
pub struct MaskedStorage<T: Component> {
    mask: BitSet,
    inner: T::Storage,
}

impl<T: Component> MaskedStorage<T> {
    /// The slots that are marked as having a payload.
    pub closed spec fn marks(&self) -> Set<Index> {
        self.mask@
    }

    /// The backend.
    pub closed spec fn backend(&self) -> T::Storage {
        self.inner
    }

    /// Whether payloads of type `T` are kept slot by slot.
    pub open spec fn distinct() -> bool {
        T::Storage::distinct()
    }

    /// The backend is sound, and holds a payload in every slot that is marked.
    pub open spec fn wf(&self) -> bool {
        &&& self.backend().inv()
        &&& forall|j: Index| self.marks().contains(j) ==> self.backend().holds(j)
    }

    /// The payloads in the storage, by slot: the marked slots and what they
    /// read as.
    pub open spec fn view(&self) -> Map<Index, T> {
        Map::new(|j: Index| self.marks().contains(j), |j: Index| self.backend().payload(j))
    }

    /// The one payload of a backend that is not distinct.
    pub open spec fn common(&self) -> T {
        self.backend().payload(0)
    }

    /// The contents once `v` has been written to slot `id`. A distinct
    /// backend then reads `v` there and nothing else changes. One that is
    /// not distinct takes `v` for its one payload if `id` has a payload
    /// already; if not, `id` gets one and `v` is dropped.
    pub open spec fn written(&self, id: Index, v: T) -> Map<Index, T> {
        if Self::distinct() {
            self@.insert(id, v)
        } else if self@.contains_key(id) {
            uniform(self@.dom(), v)
        } else {
            uniform(self@.dom().insert(id), self.common())
        }
    }

    /// The contents once the payload of slot `id` has been changed to `v`
    /// in place. With a backend that is not distinct, every slot that has
    /// a payload then reads `v`.
    pub open spec fn rewritten(&self, id: Index, v: T) -> Map<Index, T> {
        if Self::distinct() {
            amended(self@, id, v)
        } else {
            uniform(self@.dom(), v)
        }
    }

    /// The fields under the names that contracts use.
    proof fn lemma_parts(&self)
        ensures
            self.marks() == self.mask@,
            self.backend() == self.inner,
    {
    }

    /// Creates a storage without payloads.
    pub fn new() -> (s: MaskedStorage<T>)
        ensures
            s.wf(),
            s@ == (Map::<Index, T>::empty()),
            s.marks() == (Set::<Index>::empty()),
            s.backend().fresh(),
            Self::distinct() ==> forall|j: Index| !s.backend().holds(j),
    {
        let s = MaskedStorage { mask: BitSet::new(), inner: T::Storage::new() };
        proof {
            s.lemma_parts();
            assert(s@ =~= Map::<Index, T>::empty());
        }
        s
    }

    /// Hands out the presence set, and the backend for writing. The storage
    /// is then what the borrower makes of the backend, under the same set.
    fn open_mut(&mut self) -> (r: (&BitSet, &mut T::Storage))
        ensures
            r.0@ == old(self).marks(),
            *r.1 == old(self).backend(),
            final(self).marks() == old(self).marks(),
            final(self).backend() == *final(r.1),
    {
        (&self.mask, &mut self.inner)
    }

    /// Clears the contents of this storage: the backend gives up what is
    /// not marked, and then nothing is marked any more.
    pub fn clear(&mut self)
        requires
            old(self).wf(),
        ensures
            final(self).wf(),
            final(self)@ == (Map::<Index, T>::empty()),
            final(self).marks() == (Set::<Index>::empty()),
            final(self).backend().cleaned(old(self).backend()),
            forall|j: Index| #[trigger]
                final(self).backend().holds(j) ==> old(self).backend().holds(j),
            !Self::distinct() ==> final(self).common() == old(self).common(),
    {
        proof {
            self.lemma_parts();
        }
        let mask = &self.mask;
        let marked = |j: Index| -> (b: bool)
            ensures
                b == mask@.contains(j),
            { mask.contains(j) };
        self.inner.clean(marked);
        self.mask.clear();
        proof {
            self.lemma_parts();
            assert(self@ =~= Map::<Index, T>::empty());
        }
    }

    /// Removes the payload of slot `id`, and returns it if there was one.
    /// The slot is unmarked first and taken out of the backend then.
    pub fn remove(&mut self, id: Index) -> (r: Option<T>)
        requires
            old(self).wf(),
        ensures
            final(self).wf(),
            final(self)@ == old(self)@.remove(id),
            match r {
                Some(v) => {
                    &&& old(self)@.contains_key(id)
                    &&& old(self).backend().hands_out(id, v)
                    &&& Self::distinct() ==> v == old(self)@[id]
                },
                None => !old(self)@.contains_key(id) && final(self).backend() == old(self).backend(),
            },
            final(self).marks() == old(self).marks().remove(id),
            forall|j: Index| #[trigger]
                final(self).backend().holds(j) == (old(self).backend().holds(j) && !(r is Some
                    && j == id && Self::distinct())),
            !Self::distinct() ==> final(self).common() == old(self).common(),
    {
        proof {
            self.lemma_parts();
        }
        if self.mask.remove(id) {
            let v = self.inner.remove(id);
            proof {
                self.lemma_parts();
                if !Self::distinct() {
                    self.inner.lemma_shared_payload(0, id);
                    old(self).inner.lemma_shared_payload(0, id);
                }
                assert(self@ =~= old(self)@.remove(id));
            }
            Some(v)
        } else {
            proof {
                self.lemma_parts();
                assert(self.mask@ =~= old(self).mask@);
                assert(self@ =~= old(self)@.remove(id));
            }
            None
        }
    }
}

/// A storage of payloads of type `T`, as a system hands it out for one
/// access window: the allocator, by which it tells current entities from
/// stale ones, and the masked storage, through handles that give shared or
/// exclusive access.
pub struct Storage<T, A, D> {
    phantom: PhantomData<T>,
    alloc: A,
    data: D,
}

impl<T, A, D> Storage<T, A, D> where A: Shared<Target = Allocator> {
    /// The handle to the allocator.
    pub closed spec fn alloc_handle(&self) -> A {
        self.alloc
    }

    /// The handle to the masked storage.
    pub closed spec fn data_handle(&self) -> D {
        self.data
    }

    /// The allocator's table: the generation that is current, by slot.
    pub open spec fn generations(&self) -> Seq<Generation> {
        self.alloc_handle().target().generations@
    }

    /// Whether `e` is current by the allocator's table.
    pub open spec fn spec_has_gen(&self, e: Entity) -> bool {
        is_current(self.generations(), e)
    }

    /// Creates a storage from a handle to the allocator and one to the
    /// masked storage.
    pub fn new(alloc: A, data: D) -> (s: Storage<T, A, D>)
        ensures
            s.alloc_handle() == alloc,
            s.data_handle() == data,
    {
        Storage { phantom: PhantomData, alloc: alloc, data: data }
    }

    /// Tells whether `e` carries the generation that the allocator holds
    /// for its slot, which is the first generation where the allocator has
    /// recorded none.
    #[verifier::when_used_as_spec(spec_has_gen)]
    pub fn has_gen(&self, e: Entity) -> (b: bool)
        ensures
            b == self.spec_has_gen(e),
    {
        let alloc = self.alloc.shared();
        let id: usize = e.get_id() as usize;
        let current = if id < alloc.generations.len() {
            alloc.generations[id]
        } else {
            Generation(1)
        };
        e.get_gen() == current
    }
}

impl<T, A, D> Storage<T, A, D> where
    T: Component,
    A: Shared<Target = Allocator>,
    D: Shared<Target = MaskedStorage<T>>,
{
    /// The masked storage behind the handle.
    pub open spec fn masked(&self) -> MaskedStorage<T> {
        self.data_handle().target()
    }

    /// The masked storage is well formed.
    pub open spec fn wf(&self) -> bool {
        self.masked().wf()
    }

    /// The payloads in the storage, by slot.
    pub open spec fn view(&self) -> Map<Index, T> {
        self.masked()@
    }

    /// Tries to read the payload of `e`. There is one if the slot of `e`
    /// has a payload and `e` is current.
    pub fn get(&self, e: Entity) -> (r: Option<&T>)
        requires
            self.wf(),
        ensures
            match r {
                Some(p) => fetched(self@, self.generations(), e) == Some(*p),
                None => fetched(self@, self.generations(), e) is None,
            },
    {
        let data = self.data.shared();
        proof {
            data.lemma_parts();
        }
        if data.mask.contains(e.get_id()) && self.has_gen(e) {
            Some(data.inner.get(e.get_id()))
        } else {
            None
        }
    }
}

impl<T, A, D> Storage<T, A, D> where
    T: Component,
    A: Shared<Target = Allocator>,
    D: Exclusive<Target = MaskedStorage<T>>,
{
    /// Tries to lend the payload of `e` for writing. There is one if the
    /// slot of `e` has a payload and `e` is current; what the borrower
    /// leaves in it is the payload from then on.
    pub fn get_mut(&mut self, e: Entity) -> (r: Option<&mut T>)
        requires
            old(self).wf(),
        ensures
            final(self).alloc_handle() == old(self).alloc_handle(),
            final(self).wf(),
            match r {
                Some(p) => {
                    &&& fetched(old(self)@, old(self).generations(), e) == Some(*p)
                    &&& final(self)@ == old(self).masked().rewritten(e.id(), *final(p))
                    &&& fetched(final(self)@, final(self).generations(), e) == Some(*final(p))
                },
                None => {
                    &&& fetched(old(self)@, old(self).generations(), e) is None
                    &&& final(self).masked() == old(self).masked()
                },
            },
            final(self).masked().marks() == old(self).masked().marks(),
            forall|j: Index| #[trigger]
                final(self).masked().backend().holds(j) == old(self).masked().backend().holds(j),
    {
        let current = self.has_gen(e);
        let data = self.data.exclusive();
        proof {
            data.lemma_parts();
        }
        if data.mask.contains(e.get_id()) && current {
            let ghost before = *data;
            let ghost after = *final(data);
            let p = data.inner.get_mut(e.get_id());
            proof {
                after.lemma_parts();
                assert(after@ =~= before.rewritten(e.id(), *final(p)));
            }
            Some(p)
        } else {
            None
        }
    }

    /// Inserts `v` as the payload of `e`, in place of the one that its slot
    /// may have. Returns false, and does nothing, if `e` is not current.
    pub fn insert(&mut self, e: Entity, v: T) -> (b: bool)
        requires
            old(self).wf(),
        ensures
            b == is_current(old(self).generations(), e),
            final(self).alloc_handle() == old(self).alloc_handle(),
            final(self).wf(),
            b ==> final(self)@ == old(self).masked().written(e.id(), v),
            !b ==> *final(self) == *old(self),
            final(self).masked().marks() == if b {
                old(self).masked().marks().insert(e.id())
            } else {
                old(self).masked().marks()
            },
            forall|j: Index| #[trigger]
                final(self).masked().backend().holds(j) == (old(self).masked().backend().holds(j)
                    || (b && j == e.id())),
            MaskedStorage::<T>::distinct() ==> final(self)@ == inserted(
                old(self)@,
                old(self).generations(),
                e,
                v,
            ),
    {
        if self.has_gen(e) {
            let id = e.get_id();
            let data = self.data.exclusive();
            let ghost before = *data;
            proof {
                before.lemma_parts();
            }
            if data.mask.contains(id) {
                *data.inner.get_mut(id) = v;
                proof {
                    data.lemma_parts();
                    assert(data@ =~= before.written(id, v));
                }
            } else {
                data.mask.add(id);
                data.inner.insert(id, v);
                proof {
                    data.lemma_parts();
                    if !MaskedStorage::<T>::distinct() {
                        assert forall|j: Index| #[trigger]
                            before.inner.payload(j) == before.common() by {
                            before.inner.lemma_shared_payload(j, 0);
                        }
                    }
                    assert(data@ =~= before.written(id, v));
                }
            }
            true
        } else {
            false
        }
    }

    /// Removes the payload of `e` and returns it, if the slot of `e` has
    /// one and `e` is current. Does nothing if `e` is not current.
    pub fn remove(&mut self, e: Entity) -> (r: Option<T>)
        requires
            old(self).wf(),
        ensures
            final(self).alloc_handle() == old(self).alloc_handle(),
            final(self).wf(),
            final(self)@ == removed(old(self)@, old(self).generations(), e),
            match r {
                Some(v) => {
                    &&& fetched(old(self)@, old(self).generations(), e) is Some
                    &&& old(self).masked().backend().hands_out(e.id(), v)
                    &&& MaskedStorage::<T>::distinct() ==> fetched(
                        old(self)@,
                        old(self).generations(),
                        e,
                    ) == Some(v)
                },
                None => {
                    &&& fetched(old(self)@, old(self).generations(), e) is None
                    &&& final(self).masked().backend() == old(self).masked().backend()
                },
            },
            final(self).masked().marks() == if is_current(old(self).generations(), e) {
                old(self).masked().marks().remove(e.id())
            } else {
                old(self).masked().marks()
            },
            forall|j: Index| #[trigger]
                final(self).masked().backend().holds(j) == (old(self).masked().backend().holds(j)
                    && !(r is Some && j == e.id() && MaskedStorage::<T>::distinct())),
            !MaskedStorage::<T>::distinct() ==> final(self).masked().common() == old(
                self,
            ).masked().common(),
    {
        if self.has_gen(e) {
            self.data.exclusive().remove(e.get_id())
        } else {
            None
        }
    }

    /// Clears the contents of the storage, whatever the generations.
    pub fn clear(&mut self)
        requires
            old(self).wf(),
        ensures
            final(self).alloc_handle() == old(self).alloc_handle(),
            final(self).wf(),
            final(self)@ == (Map::<Index, T>::empty()),
            forall|e: Entity| fetched(final(self)@, final(self).generations(), e) is None,
            final(self).masked().marks() == (Set::<Index>::empty()),
            final(self).masked().backend().cleaned(old(self).masked().backend()),
            forall|j: Index| #[trigger]
                final(self).masked().backend().holds(j) ==> old(self).masked().backend().holds(j),
            !MaskedStorage::<T>::distinct() ==> final(self).masked().common() == old(
                self,
            ).masked().common(),
    {
        self.data.exclusive().clear();
    }
}

impl<'a, T, A, D> Join for &'a Storage<T, A, D> where
    T: Component,
    A: Shared<Target = Allocator>,
    D: Shared<Target = MaskedStorage<T>>,
{
    type Item = T;

    type Value = &'a T::Storage;

    type Mask = &'a BitSet;

    open spec fn joinable(&self) -> bool {
        self.wf()
    }

    open spec fn marked(mask: &&'a BitSet, i: Index) -> bool {
        mask@.contains(i)
    }

    open spec fn fetchable(value: &&'a T::Storage, i: Index) -> bool {
        value.inv() && value.holds(i)
    }

    open spec fn payload(value: &&'a T::Storage, i: Index) -> T {
        value.payload(i)
    }

    fn open(self) -> (r: (&'a BitSet, &'a T::Storage))
        ensures
            r.0@ == self.masked().marks(),
            *r.1 == self.masked().backend(),
    {
        let data = self.data.shared();
        proof {
            data.lemma_parts();
        }
        (&data.mask, &data.inner)
    }

    fn get<'b>(v: &'b &'a T::Storage, i: Index) -> (r: &'b T) {
        (*v).get(i)
    }
}

impl<'a, T, A, D> Join for &'a mut Storage<T, A, D> where
    T: Component,
    A: Shared<Target = Allocator>,
    D: Exclusive<Target = MaskedStorage<T>>,
{
    type Item = T;

    type Value = &'a mut T::Storage;

    type Mask = &'a BitSet;

    open spec fn joinable(&self) -> bool {
        self.wf()
    }

    open spec fn marked(mask: &&'a BitSet, i: Index) -> bool {
        mask@.contains(i)
    }

    open spec fn fetchable(value: &&'a mut T::Storage, i: Index) -> bool {
        value.inv() && value.holds(i)
    }

    open spec fn payload(value: &&'a mut T::Storage, i: Index) -> T {
        value.payload(i)
    }

    fn open(self) -> (r: (&'a BitSet, &'a mut T::Storage))
        ensures
            r.0@ == old(self).masked().marks(),
            *r.1 == old(self).masked().backend(),
            final(self).masked().marks() == old(self).masked().marks(),
            final(self).masked().backend() == *final(r.1),
            final(self).alloc_handle() == old(self).alloc_handle(),
    {
        self.data.exclusive().open_mut()
    }

    fn get<'b>(v: &'b &'a mut T::Storage, i: Index) -> (r: &'b T) {
        (**v).get(i)
    }
}

impl<'a, T, A, D> JoinMut for &'a mut Storage<T, A, D> where
    T: Component,
    A: Shared<Target = Allocator>,
    D: Exclusive<Target = MaskedStorage<T>>,
{
    fn get_mut<'b>(v: &'b mut &'a mut T::Storage, i: Index) -> (r: &'b mut T)
        ensures
            *final(*final(v)) == *final(*old(v)),
            final(v).inv(),
            forall|j: Index| #[trigger] final(v).holds(j) == old(v).holds(j),
            forall|j: Index|
                final(v).holds(j) ==> #[trigger] final(v).payload(j) == if j == i
                    || !T::Storage::distinct() {
                    *final(r)
                } else {
                    old(v).payload(j)
                },
    {
        (**v).get_mut(i)
    }
}

} // verus!
