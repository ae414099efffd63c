//! Rendering helpers that do not touch the GPU.
pub mod draw;
