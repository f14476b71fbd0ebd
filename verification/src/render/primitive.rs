//! Drawable primitives.

pub mod model;
pub mod texture;
