//! Eight values, one per octant of a box, addressed by octant number.
//!
//! Octant numbers encode position bit by bit: 4 for the right half (x),
//! 2 for the top half (y) and 1 for the front half (z).
use vstd::prelude::*;

verus! {

/// The eight octants of a box: top/bottom, front/back, left/right.
#[derive(Clone, Copy, Debug, PartialEq, Eq, Structural)]
pub enum OctantIndex {
    Tfl,
    Tfr,
    Tbl,
    Tbr,
    Bfl,
    Bfr,
    Bbl,
    Bbr,
}

/// Octant number of `o`.
pub open spec fn octant_number(o: OctantIndex) -> nat {
    match o {
        OctantIndex::Tfl => 3,
        OctantIndex::Tfr => 7,
        OctantIndex::Tbl => 2,
        OctantIndex::Tbr => 6,
        OctantIndex::Bfl => 1,
        OctantIndex::Bfr => 5,
        OctantIndex::Bbl => 0,
        OctantIndex::Bbr => 4,
    }
}

/// The octant with number `i` (for `i < 8`).
pub open spec fn octant_of_number(i: nat) -> OctantIndex {
    if i == 0 {
        OctantIndex::Bbl
    } else if i == 1 {
        OctantIndex::Bfl
    } else if i == 2 {
        OctantIndex::Tbl
    } else if i == 3 {
        OctantIndex::Tfl
    } else if i == 4 {
        OctantIndex::Bbr
    } else if i == 5 {
        OctantIndex::Bfr
    } else if i == 6 {
        OctantIndex::Tbr
    } else {
        OctantIndex::Tfr
    }
}

/// Octant number built from the three half-space tests: right (x), top (y)
/// and front (z).
pub open spec fn octant_number_of_halves(right: bool, top: bool, front: bool) -> nat {
    (if right {
        4nat
    } else {
        0nat
    }) + (if top {
        2nat
    } else {
        0nat
    }) + (if front {
        1nat
    } else {
        0nat
    })
}

impl OctantIndex {
    /// The octant number, in `0..8`.
    pub fn to_usize(self) -> (r: usize)
        ensures
            r == octant_number(self),
            r < 8,
    {
        match self {
            OctantIndex::Tfl => 3,
            OctantIndex::Tfr => 7,
            OctantIndex::Tbl => 2,
            OctantIndex::Tbr => 6,
            OctantIndex::Bfl => 1,
            OctantIndex::Bfr => 5,
            OctantIndex::Bbl => 0,
            OctantIndex::Bbr => 4,
        }
    }

    /// The octant on the given sides of the centre planes: right of the x plane,
    /// above the y plane, in front of the z plane.
    pub fn from_halves(right: bool, top: bool, front: bool) -> (r: OctantIndex)
        ensures
            octant_number(r) == octant_number_of_halves(right, top, front),
    {
        if right {
            if top {
                if front {
                    OctantIndex::Tfr
                } else {
                    OctantIndex::Tbr
                }
            } else if front {
                OctantIndex::Bfr
            } else {
                OctantIndex::Bbr
            }
        } else if top {
            if front {
                OctantIndex::Tfl
            } else {
                OctantIndex::Tbl
            }
        } else if front {
            OctantIndex::Bfl
        } else {
            OctantIndex::Bbl
        }
    }

    /// The octant with number `i`; `i` must be below 8.
    pub fn from_usize(i: usize) -> (r: OctantIndex)
        requires
            i < 8,
        ensures
            r == octant_of_number(i as nat),
            octant_number(r) == i,
    {
        if i == 0 {
            OctantIndex::Bbl
        } else if i == 1 {
            OctantIndex::Bfl
        } else if i == 2 {
            OctantIndex::Tbl
        } else if i == 3 {
            OctantIndex::Tfl
        } else if i == 4 {
            OctantIndex::Bbr
        } else if i == 5 {
            OctantIndex::Bfr
        } else if i == 6 {
            OctantIndex::Tbr
        } else {
            OctantIndex::Tfr
        }
    }
}

/// Octant numbers and octants correspond one to one, and each octant number
/// is the sum of its half bits: 4 when right, 2 when top, 1 when front.
pub proof fn lemma_octant_numbering(o: OctantIndex, i: nat)
    requires
        i < 8,
    ensures
        octant_number(o) < 8,
        octant_of_number(octant_number(o)) == o,
        octant_number(octant_of_number(i)) == i,
        octant_number(o) == octant_number_of_halves(
            o == OctantIndex::Tfr || o == OctantIndex::Tbr || o == OctantIndex::Bfr || o
                == OctantIndex::Bbr,
            o == OctantIndex::Tfl || o == OctantIndex::Tfr || o == OctantIndex::Tbl || o
                == OctantIndex::Tbr,
            o == OctantIndex::Tfl || o == OctantIndex::Tfr || o == OctantIndex::Bfl || o
                == OctantIndex::Bfr,
        ),
{
}

/// One value per octant.
#[derive(Debug, Clone, Copy)]
pub struct Octants<T> {
    /// 3
    pub tfl: T,
    /// 7
    pub tfr: T,
    /// 2
    pub tbl: T,
    /// 6
    pub tbr: T,
    /// 1
    pub bfl: T,
    /// 5
    pub bfr: T,
    /// 0
    pub bbl: T,
    /// 4
    pub bbr: T,
}

impl<T> Octants<T> {
    /// The eight values in octant-number order.
    pub open spec fn as_seq(&self) -> Seq<T> {
        seq![self.bbl, self.bfl, self.tbl, self.tfl, self.bbr, self.bfr, self.tbr, self.tfr]
    }

    /// The value of octant number `i`; `i` must be below 8.
    pub fn index(&self, i: usize) -> (r: &T)
        requires
            i < 8,
        ensures
            *r == self.as_seq()[i as int],
    {
        if i == 0 {
            &self.bbl
        } else if i == 1 {
            &self.bfl
        } else if i == 2 {
            &self.tbl
        } else if i == 3 {
            &self.tfl
        } else if i == 4 {
            &self.bbr
        } else if i == 5 {
            &self.bfr
        } else if i == 6 {
            &self.tbr
        } else {
            &self.tfr
        }
    }

    /// Mutable access to the value of octant number `i`; `i` must be below 8.
    pub fn index_mut(&mut self, i: usize) -> (r: &mut T)
        requires
            i < 8,
        ensures
            *r == old(self).as_seq()[i as int],
            final(self).as_seq() == old(self).as_seq().update(i as int, *final(r)),
    {
        if i == 0 {
            &mut self.bbl
        } else if i == 1 {
            &mut self.bfl
        } else if i == 2 {
            &mut self.tbl
        } else if i == 3 {
            &mut self.tfl
        } else if i == 4 {
            &mut self.bbr
        } else if i == 5 {
            &mut self.bfr
        } else if i == 6 {
            &mut self.tbr
        } else {
            &mut self.tfr
        }
    }

    /// The value of octant `o`.
    pub fn get(&self, o: OctantIndex) -> (r: &T)
        ensures
            *r == self.as_seq()[octant_number(o) as int],
    {
        self.index(o.to_usize())
    }

    /// Mutable access to the value of octant `o`.
    pub fn get_mut(&mut self, o: OctantIndex) -> (r: &mut T)
        ensures
            *r == old(self).as_seq()[octant_number(o) as int],
            final(self).as_seq() == old(self).as_seq().update(octant_number(o) as int, *final(r)),
    {
        self.index_mut(o.to_usize())
    }
}

} // verus!
