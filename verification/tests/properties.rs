use masked_storage::{
    Allocator, BitSet, Component, DummyStorage, Entity, Generation, HashMapStorage, Index, Join,
    JoinMut, MaskedStorage, Storage, UnprotectedStorage, VecStorage, INDEX_CAPACITY,
};
use std::cell::Cell;
use std::rc::Rc;

#[derive(Clone, Debug, PartialEq, Eq)]
struct Dense(u32);
impl Component for Dense {
    type Storage = VecStorage<Dense>;
}

#[derive(Clone, Debug, PartialEq, Eq)]
struct Sparse(u32);
impl Component for Sparse {
    type Storage = HashMapStorage<Sparse>;
}

#[derive(Clone, Debug, PartialEq, Eq)]
struct Flag(u32);
impl Default for Flag {
    fn default() -> Flag {
        Flag(42)
    }
}
impl Component for Flag {
    type Storage = DummyStorage<Flag>;
}

type Owned<T> = Storage<T, Box<Allocator>, Box<MaskedStorage<T>>>;

fn owned<T: Component>() -> Owned<T> {
    Storage::new(Box::new(Allocator::new()), Box::new(MaskedStorage::new()))
}

fn first(i: Index) -> Entity {
    Entity::new(i, Generation(1))
}

#[test]
fn entity_keeps_its_parts() {
    let e = Entity::new(17, Generation(3));
    assert_eq!(e.get_id(), 17);
    assert_eq!(e.get_gen(), Generation(3));
    assert_eq!(e, Entity::new(17, Generation(3)));
    assert_ne!(e, Entity::new(17, Generation(4)));
    assert_ne!(e, Entity::new(18, Generation(3)));
}

#[test]
fn highest_slot_round_trip() {
    assert_eq!(INDEX_CAPACITY, 1 << 24);
    let top = Entity::new(INDEX_CAPACITY - 1, Generation(1));
    assert_eq!(top.get_id(), 16_777_215);
    let mut s = owned::<Sparse>();
    assert!(s.insert(top, Sparse(5)));
    assert!(s.insert(first(0), Sparse(6)));
    assert_eq!(s.get(top), Some(&Sparse(5)));
    assert!(s.get(first(INDEX_CAPACITY - 2)).is_none());
    assert_eq!(s.remove(top), Some(Sparse(5)));
    assert!(s.get(top).is_none());
    assert_eq!(s.get(first(0)), Some(&Sparse(6)));
}

#[test]
fn thousand_entities_scenario_vec() {
    let mut s = owned::<Dense>();
    for i in 0..1000 {
        assert!(s.insert(first(i), Dense(i * 3)));
    }
    for i in 0..1000 {
        assert_eq!(s.get(first(i)), Some(&Dense(i * 3)));
    }
    for i in 0..1000 {
        assert_eq!(s.remove(first(i)), Some(Dense(i * 3)));
    }
    for i in 0..1000 {
        assert!(s.get(first(i)).is_none());
    }
}

#[test]
fn thousand_entities_scenario_hash() {
    let mut s = owned::<Sparse>();
    for i in 0..1000 {
        assert!(s.insert(first(i), Sparse(i * 3)));
    }
    for i in 0..1000 {
        assert_eq!(s.get(first(i)), Some(&Sparse(i * 3)));
    }
    for i in 0..1000 {
        assert_eq!(s.remove(first(i)), Some(Sparse(i * 3)));
    }
    for i in 0..1000 {
        assert!(s.get(first(i)).is_none());
    }
}

#[test]
fn round_trip_out_of_order() {
    let mut s = owned::<Dense>();
    let slots: [Index; 6] = [900, 3, 64, 0, 63, 128];
    for (k, i) in slots.iter().enumerate() {
        assert!(s.insert(first(*i), Dense(k as u32 + 100)));
    }
    for (k, i) in slots.iter().enumerate() {
        assert_eq!(s.get(first(*i)), Some(&Dense(k as u32 + 100)));
    }
    assert!(s.get(first(1)).is_none());
    assert!(s.get(first(899)).is_none());
    assert!(s.get(first(901)).is_none());
}

#[test]
fn insert_overwrites_in_place() {
    let mut v = owned::<Dense>();
    let mut h = owned::<Sparse>();
    assert!(v.insert(first(5), Dense(1)));
    assert!(v.insert(first(5), Dense(2)));
    assert!(h.insert(first(5), Sparse(1)));
    assert!(h.insert(first(5), Sparse(2)));
    assert_eq!(v.get(first(5)), Some(&Dense(2)));
    assert_eq!(h.get(first(5)), Some(&Sparse(2)));
    assert_eq!(v.remove(first(5)), Some(Dense(2)));
    assert_eq!(h.remove(first(5)), Some(Sparse(2)));
    assert_eq!(v.remove(first(5)), None);
    assert_eq!(h.remove(first(5)), None);
}

#[test]
fn removal_is_exhaustive_and_idempotent() {
    let mut s = owned::<Sparse>();
    for i in 0..50 {
        s.insert(first(i * 7), Sparse(i));
    }
    for i in 0..50 {
        assert_eq!(s.remove(first(i * 7)), Some(Sparse(i)));
    }
    for i in 0..50 {
        assert!(s.get(first(i * 7)).is_none());
        assert!(s.get_mut(first(i * 7)).is_none());
        assert_eq!(s.remove(first(i * 7)), None);
    }
}

#[test]
fn removed_slot_can_be_filled_again() {
    let mut s = owned::<Dense>();
    s.insert(first(2), Dense(10));
    s.insert(first(9), Dense(20));
    assert_eq!(s.remove(first(2)), Some(Dense(10)));
    assert!(s.get(first(2)).is_none());
    assert_eq!(s.get(first(9)), Some(&Dense(20)));
    assert!(s.insert(first(2), Dense(30)));
    assert_eq!(s.get(first(2)), Some(&Dense(30)));
}

#[test]
fn stale_insert_is_a_noop() {
    let mut s = owned::<Dense>();
    assert!(s.insert(Entity::new(4, Generation(1)), Dense(11)));
    assert!(!s.insert(Entity::new(4, Generation(2)), Dense(22)));
    assert!(s.get(Entity::new(4, Generation(2))).is_none());
    assert_eq!(s.get(Entity::new(4, Generation(1))), Some(&Dense(11)));
    assert!(!s.insert(Entity::new(8, Generation(0)), Dense(33)));
    assert!(s.get(Entity::new(8, Generation(1))).is_none());
}

#[test]
fn recorded_generation_decides() {
    let alloc = Allocator { generations: vec![Generation(1), Generation(3), Generation(-2)] };
    let mut s: Owned<Sparse> = Storage::new(Box::new(alloc), Box::new(MaskedStorage::new()));
    assert!(s.has_gen(Entity::new(0, Generation(1))));
    assert!(s.has_gen(Entity::new(1, Generation(3))));
    assert!(!s.has_gen(Entity::new(1, Generation(1))));
    assert!(s.has_gen(Entity::new(2, Generation(-2))));
    assert!(!s.has_gen(Entity::new(2, Generation(2))));
    assert!(s.has_gen(Entity::new(3, Generation(1))));
    assert!(!s.has_gen(Entity::new(3, Generation(2))));

    assert!(!s.insert(Entity::new(1, Generation(1)), Sparse(5)));
    assert!(!s.insert(Entity::new(1, Generation(2)), Sparse(6)));
    assert!(s.insert(Entity::new(1, Generation(3)), Sparse(7)));
    assert!(s.get(Entity::new(1, Generation(1))).is_none());
    assert_eq!(s.get(Entity::new(1, Generation(3))), Some(&Sparse(7)));
    assert_eq!(s.remove(Entity::new(1, Generation(2))), None);
    assert_eq!(s.get(Entity::new(1, Generation(3))), Some(&Sparse(7)));
    assert_eq!(s.remove(Entity::new(1, Generation(3))), Some(Sparse(7)));
}

#[test]
fn stale_entity_reaches_nothing() {
    let mut masked = MaskedStorage::<Dense>::new();
    {
        let alloc = Allocator::new();
        let mut s = Storage::new(&alloc, &mut masked);
        assert!(s.insert(first(0), Dense(9)));
    }
    let alloc = Allocator { generations: vec![Generation(2)] };
    let mut s = Storage::new(&alloc, &mut masked);
    assert!(s.get(first(0)).is_none());
    assert!(s.get_mut(first(0)).is_none());
    assert_eq!(s.remove(first(0)), None);
    assert_eq!(s.get(Entity::new(0, Generation(2))), Some(&Dense(9)));
    assert!(!s.insert(first(0), Dense(1)));
    assert_eq!(s.get(Entity::new(0, Generation(2))), Some(&Dense(9)));
}

#[test]
fn mutation_persists() {
    let mut v = owned::<Dense>();
    let mut h = owned::<Sparse>();
    for i in 0..20 {
        v.insert(first(i), Dense(i));
        h.insert(first(i), Sparse(i));
    }
    v.get_mut(first(7)).unwrap().0 = 700;
    h.get_mut(first(7)).unwrap().0 = 700;
    for i in 0..20 {
        let want = if i == 7 { 700 } else { i };
        assert_eq!(v.get(first(i)), Some(&Dense(want)));
        assert_eq!(h.get(first(i)), Some(&Sparse(want)));
    }
}

#[test]
fn clear_empties_whatever_the_generation() {
    let alloc = Allocator { generations: vec![Generation(1), Generation(2)] };
    let mut s: Owned<Dense> = Storage::new(Box::new(alloc), Box::new(MaskedStorage::new()));
    assert!(s.insert(Entity::new(0, Generation(1)), Dense(1)));
    assert!(s.insert(Entity::new(1, Generation(2)), Dense(2)));
    for i in 2..10 {
        assert!(s.insert(first(i), Dense(i)));
    }
    s.clear();
    for i in 0..10 {
        assert!(s.get(Entity::new(i, Generation(1))).is_none());
        assert!(s.get(Entity::new(i, Generation(2))).is_none());
    }
    s.clear();
    assert!(s.get(first(3)).is_none());
    assert!(s.insert(first(3), Dense(33)));
    assert_eq!(s.get(first(3)), Some(&Dense(33)));
}

#[test]
fn clear_of_empty_storage() {
    let mut v = owned::<Dense>();
    let mut h = owned::<Sparse>();
    let mut d = owned::<Flag>();
    v.clear();
    h.clear();
    d.clear();
    assert!(v.get(first(0)).is_none());
    assert!(h.get(first(0)).is_none());
    assert!(d.get(first(0)).is_none());
}

#[test]
fn hash_storage_after_clear() {
    let mut s = owned::<Sparse>();
    s.insert(first(1), Sparse(10));
    s.insert(first(2), Sparse(20));
    s.clear();
    assert!(s.get(first(1)).is_none());
    assert_eq!(s.remove(first(1)), None);
    assert!(s.insert(first(1), Sparse(11)));
    assert_eq!(s.get(first(1)), Some(&Sparse(11)));
    assert!(s.get(first(2)).is_none());
}

#[test]
fn backends_behave_alike() {
    let mut v = owned::<Dense>();
    let mut h = owned::<Sparse>();
    let steps: [(u8, Index, i32, u32); 12] = [
        (0, 3, 1, 30),
        (0, 70, 1, 700),
        (0, 3, 2, 31),
        (1, 3, 1, 0),
        (1, 3, 1, 0),
        (0, 3, 1, 32),
        (2, 70, 1, 701),
        (2, 71, 1, 0),
        (1, 70, 2, 0),
        (0, 500, 1, 5),
        (1, 70, 1, 0),
        (0, 0, 1, 1),
    ];
    for (op, i, g, x) in steps.iter() {
        let e = Entity::new(*i, Generation(*g));
        match *op {
            0 => assert_eq!(v.insert(e, Dense(*x)), h.insert(e, Sparse(*x))),
            1 => assert_eq!(v.remove(e).map(|p| p.0), h.remove(e).map(|p| p.0)),
            _ => {
                let a = v.get_mut(e).map(|p| {
                    p.0 = *x;
                });
                let b = h.get_mut(e).map(|p| {
                    p.0 = *x;
                });
                assert_eq!(a, b);
            }
        }
        for j in 0..600 {
            for k in 1..3 {
                let q = Entity::new(j, Generation(k));
                assert_eq!(v.get(q).map(|p| p.0), h.get(q).map(|p| p.0));
            }
        }
    }
    assert_eq!(v.get(first(3)), Some(&Dense(32)));
    assert_eq!(v.get(first(500)), Some(&Dense(5)));
    assert_eq!(v.get(first(0)), Some(&Dense(1)));
    assert!(v.get(first(70)).is_none());
}

#[test]
fn dummy_storage_shares_one_payload() {
    let mut s = owned::<Flag>();
    assert!(s.get(first(1)).is_none());
    assert!(s.insert(first(1), Flag(7)));
    assert_eq!(s.get(first(1)), Some(&Flag(42)));
    assert!(s.insert(first(2), Flag(8)));
    assert_eq!(s.get(first(2)), Some(&Flag(42)));
    assert!(s.get(first(3)).is_none());
    assert_eq!(s.remove(first(1)), Some(Flag(42)));
    assert!(s.get(first(1)).is_none());
    assert_eq!(s.remove(first(1)), None);
    assert_eq!(s.get(first(2)), Some(&Flag(42)));
}

#[test]
fn dummy_storage_is_rewritten_as_a_whole() {
    let mut s = owned::<Flag>();
    s.insert(first(1), Flag(7));
    s.insert(first(2), Flag(8));
    s.get_mut(first(1)).unwrap().0 = 5;
    assert_eq!(s.get(first(1)), Some(&Flag(5)));
    assert_eq!(s.get(first(2)), Some(&Flag(5)));
    assert!(s.insert(first(2), Flag(6)));
    assert_eq!(s.get(first(1)), Some(&Flag(6)));
    assert!(!s.insert(Entity::new(1, Generation(2)), Flag(9)));
    assert_eq!(s.get(first(1)), Some(&Flag(6)));
}

#[test]
fn masked_storage_by_index() {
    let mut m = MaskedStorage::<Dense>::new();
    assert_eq!(m.remove(0), None);
    {
        let alloc = Allocator::new();
        let mut s = Storage::new(&alloc, &mut m);
        s.insert(first(0), Dense(1));
        s.insert(first(65), Dense(2));
    }
    assert_eq!(m.remove(65), Some(Dense(2)));
    assert_eq!(m.remove(65), None);
    assert_eq!(m.remove(64), None);
    m.clear();
    assert_eq!(m.remove(0), None);
    m.clear();
}

#[test]
fn shared_handles_read() {
    let alloc = Allocator::new();
    let mut m = MaskedStorage::<Sparse>::new();
    {
        let mut w = Storage::new(&alloc, &mut m);
        w.insert(first(12), Sparse(120));
    }
    let r1 = Storage::new(&alloc, &m);
    let r2 = Storage::new(&alloc, &m);
    assert_eq!(r1.get(first(12)), Some(&Sparse(120)));
    assert_eq!(r2.get(first(12)), Some(&Sparse(120)));
    assert!(r1.get(first(13)).is_none());
    assert!(r1.has_gen(first(12)));
}

#[test]
fn bitset_add_remove_contains() {
    let mut b = BitSet::new();
    assert!(!b.contains(0));
    assert!(!b.contains(4_000_000_000));
    assert!(b.add(0));
    assert!(!b.add(0));
    assert!(b.add(63));
    assert!(b.add(64));
    assert!(b.add(1_000_000));
    assert!(b.contains(0));
    assert!(b.contains(63));
    assert!(b.contains(64));
    assert!(b.contains(1_000_000));
    assert!(!b.contains(1));
    assert!(!b.contains(62));
    assert!(!b.contains(65));
    assert!(!b.contains(999_999));
    assert!(!b.contains(2_000_000));
    assert!(b.remove(63));
    assert!(!b.remove(63));
    assert!(!b.remove(2_000_000));
    assert!(!b.contains(63));
    assert!(b.contains(64));
    assert!(b.contains(0));
}

#[test]
fn bitset_lists_in_rising_order() {
    let mut b = BitSet::new();
    assert_eq!(b.indices(), Vec::<Index>::new());
    for i in [700u32, 3, 64, 0, 63, 128, 3, 65] {
        b.add(i);
    }
    assert_eq!(b.indices(), vec![0, 3, 63, 64, 65, 128, 700]);
    b.remove(64);
    b.remove(0);
    assert_eq!(b.indices(), vec![3, 63, 65, 128, 700]);
    b.clear();
    assert_eq!(b.indices(), Vec::<Index>::new());
    assert!(!b.contains(3));
    assert!(b.add(3));
    assert_eq!(b.indices(), vec![3]);
}

#[test]
fn vec_backend_raw() {
    let mut v: VecStorage<u32> = UnprotectedStorage::new();
    v.insert(5, 50);
    v.insert(2, 20);
    v.insert(9, 90);
    assert_eq!(*v.get(5), 50);
    assert_eq!(*v.get(2), 20);
    assert_eq!(*v.get(9), 90);
    *v.get_mut(2) += 1;
    assert_eq!(*v.get(2), 21);
    assert_eq!(v.remove(5), 50);
    v.insert(5, 51);
    assert_eq!(*v.get(5), 51);
    v.insert(5, 52);
    assert_eq!(*v.get(5), 52);
    assert_eq!(*v.get(9), 90);
}

#[test]
fn hash_backend_raw() {
    let mut h: HashMapStorage<u32> = UnprotectedStorage::new();
    h.insert(5, 50);
    h.insert(4_000_000_000, 20);
    assert_eq!(*h.get(5), 50);
    assert_eq!(*h.get(4_000_000_000), 20);
    *h.get_mut(5) += 1;
    assert_eq!(*h.get(5), 51);
    h.insert(5, 60);
    assert_eq!(*h.get(5), 60);
    assert_eq!(h.remove(5), 60);
    h.clean(|_| true);
    assert_eq!(*h.get(4_000_000_000), 20);
    assert_eq!(h.remove(4_000_000_000), 20);
}

#[test]
fn dummy_backend_raw() {
    let mut d: DummyStorage<u32> = UnprotectedStorage::new();
    assert_eq!(*d.get(0), 0);
    assert_eq!(*d.get(77), 0);
    d.insert(3, 30);
    assert_eq!(*d.get(3), 0);
    *d.get_mut(3) = 9;
    assert_eq!(*d.get(4), 9);
    assert_eq!(d.remove(4), 9);
    assert_eq!(*d.get(4), 9);
    d.clean(|_| false);
    assert_eq!(*d.get(1), 9);
}

struct Counted(Rc<Cell<u32>>);
impl Drop for Counted {
    fn drop(&mut self) {
        self.0.set(self.0.get() + 1);
    }
}

#[test]
fn vec_backend_clean_destroys_only_what_is_marked() {
    let drops = Rc::new(Cell::new(0));
    let mut v: VecStorage<Counted> = UnprotectedStorage::new();
    v.insert(0, Counted(drops.clone()));
    v.insert(1, Counted(drops.clone()));
    v.insert(4, Counted(drops.clone()));
    v.clean(|i| i == 0 || i == 4);
    assert_eq!(drops.get(), 2);
    v.insert(1, Counted(drops.clone()));
    drop(v);
    assert_eq!(drops.get(), 3);
}

impl Component for Counted {
    type Storage = VecStorage<Counted>;
}

#[test]
fn payloads_are_destroyed_once() {
    let drops = Rc::new(Cell::new(0));
    {
        let mut s = owned::<Counted>();
        for i in 0..10 {
            s.insert(first(i), Counted(drops.clone()));
        }
        assert_eq!(drops.get(), 0);
        s.insert(first(3), Counted(drops.clone()));
        assert_eq!(drops.get(), 1);
        drop(s.remove(first(4)));
        assert_eq!(drops.get(), 2);
        assert!(s.remove(first(4)).is_none());
        assert_eq!(drops.get(), 2);
        s.clear();
        assert_eq!(drops.get(), 11);
        s.insert(first(0), Counted(drops.clone()));
        s.insert(first(20), Counted(drops.clone()));
    }
    assert_eq!(drops.get(), 13);
}

#[test]
fn join_reads_the_intersection() {
    let alloc = Allocator::new();
    let mut a = MaskedStorage::<Dense>::new();
    let mut b = MaskedStorage::<Sparse>::new();
    {
        let mut wa = Storage::new(&alloc, &mut a);
        let mut wb = Storage::new(&alloc, &mut b);
        for i in 0..100 {
            if i % 2 == 0 {
                wa.insert(first(i), Dense(i));
            }
            if i % 3 == 0 {
                wb.insert(first(i), Sparse(i * 10));
            }
        }
    }
    let ra = Storage::new(&alloc, &a);
    let rb = Storage::new(&alloc, &b);
    let (mask_a, value_a) = (&ra).open();
    let (mask_b, value_b) = (&rb).open();
    let mut seen = Vec::new();
    for i in mask_a.indices() {
        if mask_b.contains(i) {
            let x = <&Storage<Dense, &Allocator, &MaskedStorage<Dense>> as Join>::get(&value_a, i);
            let y =
                <&Storage<Sparse, &Allocator, &MaskedStorage<Sparse>> as Join>::get(&value_b, i);
            seen.push((i, x.0, y.0));
        }
    }
    let want: Vec<(u32, u32, u32)> = (0..100).filter(|i| i % 6 == 0).map(|i| (i, i, i * 10)).collect();
    assert_eq!(seen, want);
}

#[test]
fn join_writes_through() {
    let mut s = owned::<Dense>();
    for i in 0..10 {
        s.insert(first(i * 2), Dense(i));
    }
    {
        let (mask, mut value) = (&mut s).open();
        for i in mask.indices() {
            let seen = <&mut Owned<Dense> as Join>::get(&value, i).0;
            let p = <&mut Owned<Dense> as JoinMut>::get_mut(&mut value, i);
            assert_eq!(p.0, seen);
            p.0 += 100;
        }
    }
    for i in 0..10 {
        assert_eq!(s.get(first(i * 2)), Some(&Dense(i + 100)));
        assert!(s.get(first(i * 2 + 1)).is_none());
    }
}
