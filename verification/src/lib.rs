//! Component storage keyed by entities.
//!
//! A [`Storage`] binds one payload per entity index. It couples a presence
//! set with a raw backend, and checks an entity's generation against the
//! allocator before every access, so that a recycled index never reaches the
//! data of the entity that held it before.

pub mod access;
pub mod bitset;
pub mod entity;
pub mod join;
pub mod laws;
pub mod model;
pub mod storage;
pub mod storages;
pub mod trusted;
pub mod world;

pub use crate::access::{Exclusive, Shared};
pub use crate::bitset::BitSet;
pub use crate::entity::{Entity, Generation, Index, INDEX_CAPACITY};
pub use crate::join::{Join, JoinMut};
pub use crate::storage::{MaskedStorage, Storage, UnprotectedStorage};
pub use crate::storages::{DummyStorage, HashMapStorage, VecStorage};
pub use crate::world::{Allocator, Component};
