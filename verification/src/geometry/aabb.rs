//! Faces of an axis-aligned bounding box.
pub use crate::types::Face;
use vstd::prelude::*;

verus! {

/// The face reported for a point, given which face planes it lies on. The
/// planes are tried in the order top, bottom, front, back, left, right and the
/// first one that holds wins.
pub open spec fn spec_face_of_contacts(
    top: bool,
    bottom: bool,
    front: bool,
    back: bool,
    left: bool,
    right: bool,
) -> Option<Face> {
    if top {
        Some(Face::Top)
    } else if bottom {
        Some(Face::Bottom)
    } else if front {
        Some(Face::Front)
    } else if back {
        Some(Face::Back)
    } else if left {
        Some(Face::Left)
    } else if right {
        Some(Face::Right)
    } else {
        None
    }
}

/// Chooses the face of a box that a point lies on, from the six tests "the
/// point lies on the plane of face f". Top and bottom take precedence over
/// front and back, which take precedence over left and right.
pub fn face_of_contacts(
    top: bool,
    bottom: bool,
    front: bool,
    back: bool,
    left: bool,
    right: bool,
) -> (r: Option<Face>)
    ensures
        r == spec_face_of_contacts(top, bottom, front, back, left, right),
        r is None <==> !(top || bottom || front || back || left || right),
{
    if top {
        Some(Face::Top)
    } else if bottom {
        Some(Face::Bottom)
    } else if front {
        Some(Face::Front)
    } else if back {
        Some(Face::Back)
    } else if left {
        Some(Face::Left)
    } else if right {
        Some(Face::Right)
    } else {
        None
    }
}

} // verus!
