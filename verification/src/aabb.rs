//! Integer axis-aligned rectangles on the ground plane and the grid spaces
//! used to index them.

pub mod grid;
pub mod iaabb2;
