//! Vertex attribute formats for drawing, shared with the layout code.
pub use crate::gl::{AttributeFormat, AttributeLayout};
