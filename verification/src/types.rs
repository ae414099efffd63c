//! Plain value types shared across the library.
use vstd::prelude::*;

pub mod f32ext;
pub mod octants;

pub use self::f32ext::Sign;
pub use self::octants::{OctantIndex, Octants};

verus! {

/// One of the six faces of a cube.
#[derive(Debug, Copy, Clone, PartialEq, Eq, Hash, Structural)]
pub enum Face {
    Top,
    Front,
    Left,
    Right,
    Back,
    Bottom,
}

} // verus!
