//! Small ordering helpers shared by the rest of the library.
use vstd::prelude::*;
use vstd::std_specs::cmp::{PartialOrdIs, PartialOrdSpec};

verus! {

/// Nanoseconds in one second.
pub const NSEC_PER_SEC: u32 = 1_000_000_000;

/// What `min` returns: `a` when `a` compares strictly below `b`, else `b`.
pub open spec fn spec_min<T: PartialOrd>(a: T, b: T) -> T {
    if a.is_lt(&b) {
        a
    } else {
        b
    }
}

/// What `max` returns: `a` when `a` compares strictly above `b`, else `b`.
pub open spec fn spec_max<T: PartialOrd>(a: T, b: T) -> T {
    if a.is_gt(&b) {
        a
    } else {
        b
    }
}

/// Returns `a` if `a < b`, and `b` otherwise (so `b` on ties and on
/// incomparable values).
pub fn min<T: PartialOrd>(a: T, b: T) -> (r: T)
    ensures
        r == a || r == b,
        T::obeys_partial_cmp_spec() ==> r == spec_min(a, b),
{
    if a < b {
        a
    } else {
        b
    }
}

/// Returns `a` if `a > b`, and `b` otherwise (so `b` on ties and on
/// incomparable values).
pub fn max<T: PartialOrd>(a: T, b: T) -> (r: T)
    ensures
        r == a || r == b,
        T::obeys_partial_cmp_spec() ==> r == spec_max(a, b),
{
    if a > b {
        a
    } else {
        b
    }
}

/// Computes `min(min, max(max, t))`, after checking that `max >= min`.
///
/// Note that the composition is taken in this order, so for a total order the
/// result is always the lower bound `min`.
pub fn clamp<T: PartialOrd>(min: T, max: T, t: T) -> (r: T)
    requires
        T::obeys_partial_cmp_spec(),
        max.is_ge(&min),
    ensures
        r == spec_min(min, spec_max(max, t)),
{
    self::min(min, self::max(max, t))
}

/// On integers, `min` and `max` return the smaller and the larger argument.
pub proof fn lemma_min_max_on_integers(a: i64, b: i64)
    ensures
        spec_min(a, b) <= a && spec_min(a, b) <= b,
        spec_min(a, b) == a || spec_min(a, b) == b,
        spec_max(a, b) >= a && spec_max(a, b) >= b,
        spec_max(a, b) == a || spec_max(a, b) == b,
{
}

/// `clamp(min, max, t)` computes `min(min, max(max, t))`; on integers with
/// `min <= max` that is always `min`, whatever `t` is.
pub proof fn lemma_clamp_on_integers(lo: i64, hi: i64, t: i64)
    requires
        lo <= hi,
    ensures
        spec_min(lo, spec_max(hi, t)) == lo,
{
}

} // verus!
