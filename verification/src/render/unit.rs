//! Drawing blocks, entities and units.

pub mod extract;
pub mod model;
pub mod texture;
pub mod unit_kind;
