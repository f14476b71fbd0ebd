//! Objects that make up the world: blocks, entities, units and their bounds.

pub mod block;
pub mod bounds;
pub mod entity;
pub mod iunit;
pub mod unit;
pub mod kind;
pub mod resource_kind;
pub mod unit_kind;
