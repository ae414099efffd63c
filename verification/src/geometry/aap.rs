//! Axis-aligned planes: which side of a plane the corners of a box fall on.
use crate::types::Sign;
use vstd::prelude::*;

verus! {

/// A coordinate axis.
#[derive(Debug, Copy, Clone, PartialEq, Eq, Structural)]
pub enum Axis {
    X,
    Y,
    Z,
}

/// Some sign in `signs` differs from the first one.
pub open spec fn spec_signs_differ(signs: Seq<Sign>) -> bool {
    exists|i: int| 1 <= i < signs.len() && #[trigger] signs[i] != signs[0]
}

/// Decides whether a plane cuts a box, from the signs of the box's corners
/// measured against the plane (`signs[i]` is the side of corner `i`): the
/// plane cuts the box when some corner lies on a different side from the
/// first corner. A box needs at least one corner.
pub fn signs_differ(signs: &[Sign]) -> (r: bool)
    requires
        signs@.len() >= 1,
    ensures
        r == spec_signs_differ(signs@),
{
    let first = signs[0];
    let mut i: usize = 1;
    while i < signs.len()
        invariant
            1 <= i <= signs@.len(),
            first == signs@[0],
            forall|j: int| 1 <= j < i ==> #[trigger] signs@[j] == signs@[0],
        decreases signs@.len() - i,
    {
        if signs[i] != first {
            return true;
        }
        i = i + 1;
    }
    false
}

} // verus!
