//! Discrete decisions of the geometry code: which face a point lies on and
//! whether a plane separates the corners of a box.
use vstd::prelude::*;

pub mod aabb;
pub mod aap;

pub use self::aap::Axis;

verus! {

} // verus!
