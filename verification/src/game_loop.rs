//! The world's storages and systems that the game loop drives.

pub mod base;
pub mod block;
pub mod cell_index;
pub mod generation;
