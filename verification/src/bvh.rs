//! Helpers for building a bounding volume hierarchy: the median of a list of
//! keys and the split of points among the octants around an origin.
use crate::types::octants::{octant_number_of_halves, OctantIndex, Octants};
use vstd::multiset::Multiset;
use vstd::prelude::*;
use vstd::std_specs::cmp::{PartialOrdIs, PartialOrdSpec};

verus! {

/// The type's comparison follows its specification and, on the values of `s`,
/// `<=` is a total preorder under which every two values are comparable.
pub open spec fn total_preorder_on<T: PartialOrd>(s: Seq<T>) -> bool {
    &&& T::obeys_partial_cmp_spec()
    &&& forall|a: T, b: T|
        #![trigger a.partial_cmp_spec(&b)]
        s.contains(a) && s.contains(b) ==> a.is_le(&b) || a.is_gt(&b)
    &&& forall|a: T, b: T|
        #![trigger a.partial_cmp_spec(&b)]
        s.contains(a) && s.contains(b) ==> a.is_le(&b) || b.is_le(&a)
    &&& forall|a: T, b: T, c: T|
        #![trigger a.partial_cmp_spec(&b), b.partial_cmp_spec(&c)]
        s.contains(a) && s.contains(b) && s.contains(c) && a.is_le(&b) && b.is_le(&c) ==> a.is_le(
            &c,
        )
}

/// `s` is in non-decreasing order.
pub open spec fn sorted_by_le<T: PartialOrd>(s: Seq<T>) -> bool {
    forall|i: int, j: int| #![trigger s[i], s[j]] 0 <= i < j < s.len() ==> s[i].is_le(&s[j])
}

/// The element at index `len / 2`.
pub open spec fn middle<T>(s: Seq<T>) -> T {
    s[(s.len() / 2) as int]
}

/// Swaps `v[j - 1]` and `v[j]`.
fn swap_adjacent<T>(v: &mut [T], j: usize)
    requires
        0 < j < old(v)@.len(),
    ensures
        final(v)@ == old(v)@.update(j - 1, old(v)@[j as int]).update(j as int, old(v)@[j - 1]),
{
    let ghost s = v@;
    let (left, right) = v.split_at_mut(j);
    match left.last_mut() {
        Some(a) => match right.first_mut() {
            Some(b) => {
                core::mem::swap(a, b);
            },
            None => {},
        },
        None => {},
    }
    assert(v@ =~= s.update(j - 1, s[j as int]).update(j as int, s[j - 1]));
}

/// Sorts `v` into non-decreasing order and returns (a clone of) its middle
/// element, the one at index `len / 2`. The slice must not be empty, and its
/// values must be totally preordered by `<=`.
pub fn median<T: PartialOrd + Clone>(v: &mut [T]) -> (r: T)
    requires
        old(v)@.len() > 0,
        total_preorder_on(old(v)@),
    ensures
        final(v)@.to_multiset() == old(v)@.to_multiset(),
        sorted_by_le(final(v)@),
        cloned(middle(final(v)@), r),
{
    let ghost s0 = v@;
    let len = v.len();
    let mut i: usize = 1;
    while i < len
        invariant
            len == v@.len(),
            len > 0,
            1 <= i <= len,
            total_preorder_on(s0),
            v@.to_multiset() == s0.to_multiset(),
            forall|k: int| 0 <= k < len ==> s0.contains(#[trigger] v@[k]),
            forall|a: int, b: int| #![trigger v@[a], v@[b]] 0 <= a < b < i ==> v@[a].is_le(&v@[b]),
        decreases len - i,
    {
        let mut j: usize = i;
        while j > 0 && v[j - 1] > v[j]
            invariant
                len == v@.len(),
                0 <= j <= i < len,
                    total_preorder_on(s0),
                v@.to_multiset() == s0.to_multiset(),
                forall|k: int| 0 <= k < len ==> s0.contains(#[trigger] v@[k]),
                forall|a: int, b: int|
                    #![trigger v@[a], v@[b]]
                    0 <= a < b <= i && a != j && b != j ==> v@[a].is_le(&v@[b]),
                forall|b: int| #![trigger v@[b]] j < b <= i ==> v@[j as int].is_le(&v@[b]),
            decreases j,
        {
            let ghost before = v@;
            proof {
                assert(s0.contains(before[j - 1]) && s0.contains(before[j as int]));
            }
            swap_adjacent(v, j);
            proof {
                lemma_swap_multiset(before, j - 1, j as int);
                assert forall|k: int| 0 <= k < len implies s0.contains(#[trigger] v@[k]) by {
                    if k == j - 1 {
                        assert(v@[k] == before[j as int]);
                    } else if k == j {
                        assert(v@[k] == before[j - 1]);
                    } else {
                        assert(v@[k] == before[k]);
                    }
                }
            }
            j = j - 1;
        }
        proof {
            if j > 0 {
                assert(s0.contains(v@[j - 1]) && s0.contains(v@[j as int]));
                assert forall|a: int| #![trigger v@[a]] 0 <= a < j implies v@[a].is_le(&v@[j as int]) by {
                    if a < j - 1 {
                        assert(s0.contains(v@[a]));
                        assert(v@[a].is_le(&v@[j - 1]));
                    }
                }
            }
        }
        i = i + 1;
    }
    let mid = len / 2;
    v[mid].clone()
}

/// Swapping two positions of a sequence keeps its multiset of elements.
proof fn lemma_swap_multiset<T>(s: Seq<T>, i: int, j: int)
    requires
        0 <= i < s.len(),
        0 <= j < s.len(),
    ensures
        s.update(i, s[j]).update(j, s[i]).to_multiset() == s.to_multiset(),
{
    broadcast use vstd::seq_lib::to_multiset_update;
    broadcast use vstd::multiset::group_multiset_axioms;

    let s1 = s.update(i, s[j]);
    assert(s1.to_multiset() == s.to_multiset().insert(s[j]).remove(s[i]));
    assert(s1.update(j, s[i]).to_multiset() == s1.to_multiset().insert(s[i]).remove(s1[j]));
    if i == j {
        assert(s.update(i, s[j]).update(j, s[i]) =~= s);
    } else {
        assert(s1[j] == s[j]);
        assert(s.to_multiset().count(s[i]) >= 1) by {
            s.to_multiset_ensures();
            assert(s.contains(s[i]));
        }
        assert(s.update(i, s[j]).update(j, s[i]).to_multiset() =~= s.to_multiset());
    }
}

/// The points of `pts` whose half-space tests (in `hs`, position by position:
/// right of, above and in front of the origin) put them in octant `k`, in
/// the order they came in.
pub open spec fn points_in_octant<P>(pts: Seq<P>, hs: Seq<(bool, bool, bool)>, k: nat) -> Seq<P>
    decreases pts.len(),
{
    if pts.len() == 0 {
        Seq::empty()
    } else {
        let n = pts.len() - 1;
        let front = points_in_octant(pts.take(n), hs, k);
        if octant_number_of_halves(hs[n].0, hs[n].1, hs[n].2) == k {
            front.push(pts[n])
        } else {
            front
        }
    }
}

proof fn lemma_points_step<P>(pts: Seq<P>, hs: Seq<(bool, bool, bool)>, i: int, k: nat)
    requires
        0 <= i < pts.len(),
    ensures
        points_in_octant(pts.take(i + 1), hs, k) == if octant_number_of_halves(
            hs[i].0,
            hs[i].1,
            hs[i].2,
        ) == k {
            points_in_octant(pts.take(i), hs, k).push(pts[i])
        } else {
            points_in_octant(pts.take(i), hs, k)
        },
{
    assert(pts.take(i + 1).take(i) =~= pts.take(i));
}

/// The points of the first `k` octants together, counted with multiplicity.
pub open spec fn octants_multiset<P>(pts: Seq<P>, hs: Seq<(bool, bool, bool)>, k: nat) -> Multiset<
    P,
>
    decreases k,
{
    if k == 0 {
        Multiset::empty()
    } else {
        octants_multiset(pts, hs, (k - 1) as nat).add(
            points_in_octant(pts, hs, (k - 1) as nat).to_multiset(),
        )
    }
}

proof fn lemma_octants_step<P>(pts: Seq<P>, hs: Seq<(bool, bool, bool)>, k: nat)
    requires
        pts.len() >= 1,
    ensures
        ({
            let n = pts.len() - 1;
            octants_multiset(pts, hs, k) == if octant_number_of_halves(
                hs[n].0,
                hs[n].1,
                hs[n].2,
            ) < k {
                octants_multiset(pts.take(n), hs, k).insert(pts[n])
            } else {
                octants_multiset(pts.take(n), hs, k)
            }
        }),
    decreases k,
{
    broadcast use vstd::multiset::group_multiset_axioms;

    let n = pts.len() - 1;
    if k > 0 {
        lemma_octants_step(pts, hs, (k - 1) as nat);
        let j = (k - 1) as nat;
        if octant_number_of_halves(hs[n].0, hs[n].1, hs[n].2) == j {
            points_in_octant(pts.take(n), hs, j).to_multiset_ensures();
        }
        assert(octants_multiset(pts, hs, k) =~= if octant_number_of_halves(
            hs[n].0,
            hs[n].1,
            hs[n].2,
        ) < k {
            octants_multiset(pts.take(n), hs, k).insert(pts[n])
        } else {
            octants_multiset(pts.take(n), hs, k)
        });
    }
}

/// Splitting points among the octants loses and duplicates nothing: the
/// eight lists together hold exactly the points that were split.
pub proof fn lemma_partition_pts_preserves_points<P>(pts: Seq<P>, hs: Seq<(bool, bool, bool)>)
    requires
        pts.len() == hs.len(),
    ensures
        octants_multiset(pts, hs, 8) == pts.to_multiset(),
    decreases pts.len(),
{
    broadcast use vstd::multiset::group_multiset_axioms;

    if pts.len() == 0 {
        lemma_octants_empty(pts, hs, 8);
        pts.to_multiset_ensures();
        vstd::multiset::lemma_multiset_empty_len(pts.to_multiset());
    } else {
        let n = pts.len() - 1;
        assert(octant_number_of_halves(hs[n].0, hs[n].1, hs[n].2) < 8);
        lemma_octants_step(pts, hs, 8);
        lemma_partition_pts_preserves_points(pts.take(n), hs.take(n));
        lemma_octants_ignore_tail(pts.take(n), hs, hs.take(n), 8);
        pts.take(n).to_multiset_ensures();
        assert(pts.take(n).push(pts[n]) =~= pts);
    }
}

proof fn lemma_octants_empty<P>(pts: Seq<P>, hs: Seq<(bool, bool, bool)>, k: nat)
    requires
        pts.len() == 0,
    ensures
        octants_multiset(pts, hs, k) == Multiset::<P>::empty(),
    decreases k,
{
    broadcast use vstd::multiset::group_multiset_axioms;

    if k > 0 {
        lemma_octants_empty(pts, hs, (k - 1) as nat);
        let sel = points_in_octant(pts, hs, (k - 1) as nat);
        assert(sel =~= Seq::<P>::empty());
        sel.to_multiset_ensures();
        vstd::multiset::lemma_multiset_empty_len(sel.to_multiset());
        assert(octants_multiset(pts, hs, k) =~= Multiset::<P>::empty());
    }
}

/// Only the tests of the first `pts.len()` points matter.
proof fn lemma_octants_ignore_tail<P>(
    pts: Seq<P>,
    hs: Seq<(bool, bool, bool)>,
    gs: Seq<(bool, bool, bool)>,
    k: nat,
)
    requires
        pts.len() <= hs.len(),
        pts.len() <= gs.len(),
        forall|i: int| 0 <= i < pts.len() ==> hs[i] == gs[i],
    ensures
        octants_multiset(pts, hs, k) == octants_multiset(pts, gs, k),
    decreases k,
{
    if k > 0 {
        lemma_octants_ignore_tail(pts, hs, gs, (k - 1) as nat);
        lemma_points_same(pts, hs, gs, (k - 1) as nat);
    }
}

proof fn lemma_points_same<P>(
    pts: Seq<P>,
    hs: Seq<(bool, bool, bool)>,
    gs: Seq<(bool, bool, bool)>,
    k: nat,
)
    requires
        pts.len() <= hs.len(),
        pts.len() <= gs.len(),
        forall|i: int| 0 <= i < pts.len() ==> hs[i] == gs[i],
    ensures
        points_in_octant(pts, hs, k) == points_in_octant(pts, gs, k),
    decreases pts.len(),
{
    if pts.len() > 0 {
        let n = pts.len() - 1;
        lemma_points_same(pts.take(n), hs, gs, k);
    }
}

/// Splits points among the eight octants around an origin. `halves[i]` holds
/// the three tests for `pts[i]`: its offset from the origin has non-negative
/// x, y and z. Order is kept within each octant.
pub fn partition_pts<P: Copy>(pts: &[P], halves: &[(bool, bool, bool)]) -> (r: Octants<Vec<P>>)
    requires
        pts@.len() == halves@.len(),
    ensures
        forall|k: int|
            0 <= k < 8 ==> (#[trigger] r.as_seq()[k])@ == points_in_octant(pts@, halves@, k as nat),
{
    let mut partition: Octants<Vec<P>> = Octants {
        tfl: Vec::new(),
        tfr: Vec::new(),
        tbl: Vec::new(),
        tbr: Vec::new(),
        bfl: Vec::new(),
        bfr: Vec::new(),
        bbl: Vec::new(),
        bbr: Vec::new(),
    };
    let n = pts.len();
    let mut i: usize = 0;
    assert(pts@.take(0) =~= Seq::<P>::empty());
    while i < n
        invariant
            n == pts@.len(),
            n == halves@.len(),
            0 <= i <= n,
            forall|k: int|
                0 <= k < 8 ==> (#[trigger] partition.as_seq()[k])@ == points_in_octant(
                    pts@.take(i as int),
                    halves@,
                    k as nat,
                ),
        decreases n - i,
    {
        let pt = pts[i];
        let (right, top, front) = halves[i];
        proof {
            assert forall|k: nat| #![trigger points_in_octant(pts@.take(i + 1), halves@, k)]
                true implies points_in_octant(pts@.take(i + 1), halves@, k) == if octant_number_of_halves(
                halves@[i as int].0,
                halves@[i as int].1,
                halves@[i as int].2,
            ) == k {
                points_in_octant(pts@.take(i as int), halves@, k).push(pts@[i as int])
            } else {
                points_in_octant(pts@.take(i as int), halves@, k)
            } by {
                lemma_points_step(pts@, halves@, i as int, k);
            }
        }
        let o = OctantIndex::from_halves(right, top, front);
        let bucket = partition.get_mut(o);
        bucket.push(pt);
        i = i + 1;
    }
    assert(pts@.take(n as int) =~= pts@);
    partition
}

} // verus!
