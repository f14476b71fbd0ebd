//! What the renderer needs from the world, without the GPU: models,
//! textures and atlas layouts.

pub mod primitive;
pub mod texture;
pub mod unit;
