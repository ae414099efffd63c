//! The discrete core of a block-world game engine: centred voxel grids,
//! octant bookkeeping for an octree and its ray traversal order, glyph data
//! conversion, vertex attribute layout, and the input decisions of the game
//! loop. Geometry on floating-point values lives with the application.
use vstd::prelude::*;

pub mod block;
pub mod bvh;
pub mod debug;
pub mod event_handlers;
pub mod freetype;
pub mod game;
pub mod geometry;
pub mod gl;
pub mod octree;
pub mod render;
pub mod types;
pub mod utils;
pub mod vector;
pub mod vulkan;

verus! {

} // verus!
