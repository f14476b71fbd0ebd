//! Integer geometry, spatial indexing and world bookkeeping for a tile-based
//! sandbox world, with contracts checked by Verus.

pub mod aabb;
pub mod assets;
pub mod atlas;
pub mod collections;
pub mod game_loop;
pub mod model;
pub mod models;
pub mod render;
pub mod vector;
