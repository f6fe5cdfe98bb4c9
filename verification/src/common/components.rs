//! Plain data that can be attached to an entity.

use crate::common::vec2::Vec2;
use vstd::prelude::*;

verus! {

/// Where an entity is and which way it faces.
#[derive(Clone, Copy, Debug, PartialEq, Eq, Structural)]
pub struct CTransform {
    pub pos: Vec2,
    pub rot: Vec2,
}

/// A colour, by its red, green, blue and alpha parts.
#[derive(Clone, Copy, Debug, PartialEq, Eq, Structural)]
pub struct Color {
    pub r: u8,
    pub g: u8,
    pub b: u8,
    pub a: u8,
}

/// The extent of an entity.
#[derive(Clone, Copy, Debug, PartialEq, Eq, Structural)]
pub struct Shape {
    pub dims: Vec2,
}

/// How fast an entity moves.
#[derive(Clone, Copy, Debug, PartialEq, Eq, Structural)]
pub struct Physics {
    pub vel: Vec2,
}

/// Names the client that owns an entity.
#[derive(Clone, Copy, Debug, PartialEq, Eq, Structural)]
pub struct OwnerClient {
    pub client_id: u32,
}

/// Ties a client to the entity that stands for it. The entity is held by
/// the bits of its handle.
#[derive(Clone, Copy, Debug, PartialEq, Eq, Structural)]
pub struct RegistryRecord {
    pub client_id: u32,
    pub entity: u64,
}

/// The clients and the entities that stand for them.
pub struct Registry {
    pub records: Vec<RegistryRecord>,
}

} // verus!
