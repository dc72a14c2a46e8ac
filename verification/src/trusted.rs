//! What the library takes on trust from code that is not verified here:
//! the hash map of the sparse backend, which hashes with `fnv`, and one
//! function of `std`.

use vstd::prelude::*;
use std::collections::HashMap;
use std::hash::BuildHasherDefault;
use fnv::FnvHasher;

verus! {

/// `fnv::FnvHasher`, the hasher of the sparse backend's map. Nothing is
/// read from it here.
#[verifier::external_type_specification]
#[verifier::external_body]
pub struct ExFnvHasher(fnv::FnvHasher);

/// `std::hash::BuildHasherDefault`, which makes a hasher of type `H` from
/// its `Default`. Nothing is read from it here.
#[verifier::external_type_specification]
#[verifier::external_body]
#[verifier::reject_recursive_types(H)]
pub struct ExBuildHasherDefault<H>(std::hash::BuildHasherDefault<H>);

/// `std::mem::forget` takes ownership of a value and ends its life without
/// running its destructor. It returns nothing, and nothing is claimed of it.
pub assume_specification<T>[ core::mem::forget::<T> ](t: T);

/// `HashMap::with_hasher`, given the default builder of `fnv` hashers:
/// the map that comes back has no entry.
#[verifier::external_body]
pub(crate) fn fnv_map_new<T>() -> (map: HashMap<u32, T, BuildHasherDefault<FnvHasher>>)
    ensures
        map@ == (Map::<u32, T>::empty()),
{
    HashMap::with_hasher(BuildHasherDefault::<FnvHasher>::default())
}

/// `HashMap::get` on a map that hashes with `fnv`: a reference to the value
/// that `key` maps to, or nothing where the map has no such key.
#[verifier::external_body]
pub(crate) fn fnv_map_get<T>(
    map: &HashMap<u32, T, BuildHasherDefault<FnvHasher>>,
    key: u32,
) -> (r: Option<&T>)
    ensures
        match r {
            Some(value) => map@.contains_key(key) && *value == map@[key],
            None => !map@.contains_key(key),
        },
{
    map.get(&key)
}

/// `HashMap::get_mut` on a map that hashes with `fnv`: a mutable reference
/// to the value that `key` maps to, through which that value and no other
/// part of the map can change, or nothing where the map has no such key.
#[verifier::external_body]
pub(crate) fn fnv_map_get_mut<T>(
    map: &mut HashMap<u32, T, BuildHasherDefault<FnvHasher>>,
    key: u32,
) -> (r: Option<&mut T>)
    ensures
        match r {
            Some(value) => old(map)@.contains_key(key) && *value == old(map)@[key] && final(map)@
                == old(map)@.insert(key, *final(value)),
            None => !old(map)@.contains_key(key) && final(map)@ == old(map)@,
        },
{
    map.get_mut(&key)
}

/// `HashMap::insert` on a map that hashes with `fnv`: afterwards `key` maps
/// to `value` and every other key is as before. What `key` mapped to before
/// comes back, or nothing where the map had no such key.
#[verifier::external_body]
pub(crate) fn fnv_map_insert<T>(
    map: &mut HashMap<u32, T, BuildHasherDefault<FnvHasher>>,
    key: u32,
    value: T,
) -> (r: Option<T>)
    ensures
        final(map)@ == old(map)@.insert(key, value),
        match r {
            Some(before) => old(map)@.contains_key(key) && before == old(map)@[key],
            None => !old(map)@.contains_key(key),
        },
{
    map.insert(key, value)
}

/// `HashMap::remove` on a map that hashes with `fnv`: afterwards the map
/// has no key `key` and every other key is as before. What `key` mapped to
/// comes back, or nothing where the map had no such key.
#[verifier::external_body]
pub(crate) fn fnv_map_remove<T>(
    map: &mut HashMap<u32, T, BuildHasherDefault<FnvHasher>>,
    key: u32,
) -> (r: Option<T>)
    ensures
        final(map)@ == old(map)@.remove(key),
        match r {
            Some(before) => old(map)@.contains_key(key) && before == old(map)@[key],
            None => !old(map)@.contains_key(key),
        },
{
    map.remove(&key)
}

} // verus!
