//! The sign of a number, as a plain value.
use vstd::prelude::*;

verus! {

/// Whether a number is positive, zero or negative.
#[derive(Debug, Clone, Copy, PartialEq, Eq, Structural)]
pub enum Sign {
    Positive,
    Zero,
    Negative,
}

} // verus!
