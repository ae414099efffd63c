//! The discrete part of the octree: which octant an entity belongs to, how a
//! node's entities are split among its children, and the order in which a
//! ray visits the children of a node.
//!
//! Children are numbered as octants: bit 4 for the right half (x), bit 2 for
//! the top half (y), bit 1 for the front half (z).
use crate::geometry::Axis;
use crate::types::octants::{octant_number_of_halves, Octants};
use vstd::multiset::Multiset;
use vstd::prelude::*;

verus! {

/// A terminal node splits once it would hold more entities than this.
pub const TERMINAL_NODE_MAX_SIZE: usize = 8;

/// The eight children of an octree node.
#[derive(Clone, Copy, Debug, PartialEq, Eq, Structural)]
pub enum NodeOctantIndex {
    Tfl,
    Tfr,
    Tbl,
    Tbr,
    Bfl,
    Bfr,
    Bbl,
    Bbr,
}

/// Child number of `o`.
pub open spec fn node_octant_number(o: NodeOctantIndex) -> nat {
    match o {
        NodeOctantIndex::Tfl => 3,
        NodeOctantIndex::Tfr => 7,
        NodeOctantIndex::Tbl => 2,
        NodeOctantIndex::Tbr => 6,
        NodeOctantIndex::Bfl => 1,
        NodeOctantIndex::Bfr => 5,
        NodeOctantIndex::Bbl => 0,
        NodeOctantIndex::Bbr => 4,
    }
}

impl NodeOctantIndex {
    /// The child number, in `0..8`.
    pub fn to_usize(self) -> (r: usize)
        ensures
            r == node_octant_number(self),
            r < 8,
    {
        match self {
            NodeOctantIndex::Tfl => 3,
            NodeOctantIndex::Tfr => 7,
            NodeOctantIndex::Tbl => 2,
            NodeOctantIndex::Tbr => 6,
            NodeOctantIndex::Bfl => 1,
            NodeOctantIndex::Bfr => 5,
            NodeOctantIndex::Bbl => 0,
            NodeOctantIndex::Bbr => 4,
        }
    }
}

/// The child that holds a point, from the three tests "the point is on the
/// non-negative side" of the x, y and z planes through the node centre
/// (applied to the offset vector from the centre).
pub fn octant_index(x_nonneg: bool, y_nonneg: bool, z_nonneg: bool) -> (r: NodeOctantIndex)
    ensures
        node_octant_number(r) == octant_number_of_halves(x_nonneg, y_nonneg, z_nonneg),
{
    if x_nonneg {
        if y_nonneg {
            if z_nonneg {
                NodeOctantIndex::Tfr
            } else {
                NodeOctantIndex::Tbr
            }
        } else if z_nonneg {
            NodeOctantIndex::Bfr
        } else {
            NodeOctantIndex::Bbr
        }
    } else if y_nonneg {
        if z_nonneg {
            NodeOctantIndex::Tfl
        } else {
            NodeOctantIndex::Tbl
        }
    } else if z_nonneg {
        NodeOctantIndex::Bfl
    } else {
        NodeOctantIndex::Bbl
    }
}

/// Where an entity goes when a node is split: it stays with the node when
/// one of the three centre planes cuts its box, and goes to a child
/// otherwise.
#[derive(Clone, Copy, Debug, PartialEq, Eq, Structural)]
pub enum Placement {
    Straddles,
    Octant(NodeOctantIndex),
}

/// Bucket of a placement: the child number, or 8 for the node itself.
pub open spec fn bucket_of(p: Placement) -> int {
    match p {
        Placement::Straddles => 8,
        Placement::Octant(o) => node_octant_number(o) as int,
    }
}

/// The entities of `es` whose placement (in `ps`, position by position) falls
/// in bucket `b`, in the order they came in.
pub open spec fn select<E>(es: Seq<E>, ps: Seq<Placement>, b: int) -> Seq<E>
    decreases es.len(),
{
    if es.len() == 0 {
        Seq::empty()
    } else {
        let n = es.len() - 1;
        let front = select(es.take(n), ps, b);
        if bucket_of(ps[n]) == b {
            front.push(es[n])
        } else {
            front
        }
    }
}

/// The contents of the node list and the eight child buckets, as one
/// multiset: buckets `0..k`.
pub open spec fn buckets_multiset<E>(es: Seq<E>, ps: Seq<Placement>, k: nat) -> Multiset<E>
    decreases k,
{
    if k == 0 {
        Multiset::empty()
    } else {
        buckets_multiset(es, ps, (k - 1) as nat).add(
            select(es, ps, (k - 1) as int).to_multiset(),
        )
    }
}

/// Eight empty child buckets.
fn empty_buckets<E>() -> (r: Octants<Vec<E>>)
    ensures
        forall|k: int| 0 <= k < 8 ==> (#[trigger] r.as_seq()[k])@ == Seq::<E>::empty(),
{
    Octants {
        tfl: Vec::new(),
        tfr: Vec::new(),
        tbl: Vec::new(),
        tbr: Vec::new(),
        bfl: Vec::new(),
        bfr: Vec::new(),
        bbl: Vec::new(),
        bbr: Vec::new(),
    }
}

proof fn lemma_select_step<E>(es: Seq<E>, ps: Seq<Placement>, i: int, b: int)
    requires
        0 <= i < es.len(),
    ensures
        select(es.take(i + 1), ps, b) == if bucket_of(ps[i]) == b {
            select(es.take(i), ps, b).push(es[i])
        } else {
            select(es.take(i), ps, b)
        },
{
    assert(es.take(i + 1).take(i) =~= es.take(i));
}

/// Splits `entities` between the node itself and its eight children, as the
/// placements say: `placements[i]` is where `entities[i]` goes. Order is kept
/// within each list.
pub fn partition_entities<E: Copy>(entities: &[E], placements: &[Placement]) -> (r: (
    Vec<E>,
    Octants<Vec<E>>,
))
    requires
        entities@.len() == placements@.len(),
    ensures
        r.0@ == select(entities@, placements@, 8),
        forall|k: int| 0 <= k < 8 ==> (#[trigger] r.1.as_seq()[k])@ == select(entities@, placements@, k),
{
    let mut node_entities: Vec<E> = Vec::new();
    let mut oct_partition: Octants<Vec<E>> = empty_buckets();
    let n = entities.len();
    let mut i: usize = 0;
    assert(entities@.take(0) =~= Seq::<E>::empty());
    while i < n
        invariant
            n == entities@.len(),
            n == placements@.len(),
            0 <= i <= n,
            node_entities@ == select(entities@.take(i as int), placements@, 8),
            forall|k: int|
                0 <= k < 8 ==> (#[trigger] oct_partition.as_seq()[k])@ == select(
                    entities@.take(i as int),
                    placements@,
                    k,
                ),
        decreases n - i,
    {
        let e = entities[i];
        proof {
            assert forall|b: int| #![trigger select(entities@.take(i + 1), placements@, b)]
                true implies select(entities@.take(i + 1), placements@, b) == if bucket_of(
                placements@[i as int],
            ) == b {
                select(entities@.take(i as int), placements@, b).push(entities@[i as int])
            } else {
                select(entities@.take(i as int), placements@, b)
            } by {
                lemma_select_step(entities@, placements@, i as int, b);
            }
        }
        match placements[i] {
            Placement::Straddles => {
                node_entities.push(e);
            },
            Placement::Octant(o) => {
                let k = o.to_usize();
                let bucket = oct_partition.index_mut(k);
                bucket.push(e);
            },
        }
        i = i + 1;
    }
    assert(entities@.take(n as int) =~= entities@);
    (node_entities, oct_partition)
}

proof fn lemma_buckets_step<E>(es: Seq<E>, ps: Seq<Placement>, k: nat)
    requires
        es.len() >= 1,
        0 <= bucket_of(ps[es.len() - 1]) <= 8,
    ensures
        buckets_multiset(es, ps, k) == if bucket_of(ps[es.len() - 1]) < k {
            buckets_multiset(es.take(es.len() - 1), ps, k).insert(es[es.len() - 1])
        } else {
            buckets_multiset(es.take(es.len() - 1), ps, k)
        },
    decreases k,
{
    let n = es.len() - 1;
    if k > 0 {
        lemma_buckets_step(es, ps, (k - 1) as nat);
        let b = (k - 1) as int;
        if bucket_of(ps[n]) == b {
            assert(select(es, ps, b) == select(es.take(n), ps, b).push(es[n]));
            select(es.take(n), ps, b).to_multiset_ensures();
        }
        broadcast use vstd::multiset::group_multiset_axioms;

        assert(buckets_multiset(es, ps, k) =~= if bucket_of(ps[n]) < k {
            buckets_multiset(es.take(n), ps, k).insert(es[n])
        } else {
            buckets_multiset(es.take(n), ps, k)
        });
    }
}

/// Splitting loses and duplicates nothing: the node list and the eight child
/// buckets together hold exactly the entities that were split.
pub proof fn lemma_partition_preserves_entities<E>(es: Seq<E>, ps: Seq<Placement>)
    requires
        es.len() == ps.len(),
    ensures
        buckets_multiset(es, ps, 9) == es.to_multiset(),
    decreases es.len(),
{
    broadcast use vstd::multiset::group_multiset_axioms;

    if es.len() == 0 {
        lemma_buckets_empty(es, ps, 9);
        es.to_multiset_ensures();
        vstd::multiset::lemma_multiset_empty_len(es.to_multiset());
    } else {
        let n = es.len() - 1;
        let p = ps[n];
        assert(0 <= bucket_of(p) <= 8);
        lemma_buckets_step(es, ps, 9);
        lemma_partition_preserves_entities(es.take(n), ps.take(n));
        lemma_select_ignores_tail(es.take(n), ps, ps.take(n), 9);
        es.take(n).to_multiset_ensures();
        assert(es.take(n).push(es[n]) =~= es);
    }
}

proof fn lemma_buckets_empty<E>(es: Seq<E>, ps: Seq<Placement>, k: nat)
    requires
        es.len() == 0,
    ensures
        buckets_multiset(es, ps, k) == Multiset::<E>::empty(),
    decreases k,
{
    broadcast use vstd::multiset::group_multiset_axioms;

    if k > 0 {
        lemma_buckets_empty(es, ps, (k - 1) as nat);
        let sel = select(es, ps, (k - 1) as int);
        assert(sel =~= Seq::<E>::empty());
        sel.to_multiset_ensures();
        vstd::multiset::lemma_multiset_empty_len(sel.to_multiset());
        assert(buckets_multiset(es, ps, k) =~= Multiset::<E>::empty());
    }
}

/// Only the first `es.len()` placements matter.
proof fn lemma_select_ignores_tail<E>(es: Seq<E>, ps: Seq<Placement>, qs: Seq<Placement>, k: nat)
    requires
        es.len() <= ps.len(),
        es.len() <= qs.len(),
        forall|i: int| 0 <= i < es.len() ==> ps[i] == qs[i],
    ensures
        buckets_multiset(es, ps, k) == buckets_multiset(es, qs, k),
    decreases k,
{
    if k > 0 {
        lemma_select_ignores_tail(es, ps, qs, (k - 1) as nat);
        lemma_select_same(es, ps, qs, (k - 1) as int);
    }
}

proof fn lemma_select_same<E>(es: Seq<E>, ps: Seq<Placement>, qs: Seq<Placement>, b: int)
    requires
        es.len() <= ps.len(),
        es.len() <= qs.len(),
        forall|i: int| 0 <= i < es.len() ==> ps[i] == qs[i],
    ensures
        select(es, ps, b) == select(es, qs, b),
    decreases es.len(),
{
    if es.len() > 0 {
        let n = es.len() - 1;
        lemma_select_same(es.take(n), ps, qs, b);
    }
}

/// Bit of an axis in a child number: 4 for x, 2 for y, 1 for z.
pub open spec fn axis_bit(a: Axis) -> nat {
    match a {
        Axis::X => 4,
        Axis::Y => 2,
        Axis::Z => 1,
    }
}

/// Child `n` lies in the upper half of the node along axis `a`.
pub open spec fn has_bit(n: nat, a: Axis) -> bool {
    (n / axis_bit(a)) % 2 == 1
}

/// Number of axes along which child `n` lies in the upper half.
pub open spec fn upper_count(n: nat) -> nat {
    (if has_bit(n, Axis::X) {
        1nat
    } else {
        0nat
    }) + (if has_bit(n, Axis::Y) {
        1nat
    } else {
        0nat
    }) + (if has_bit(n, Axis::Z) {
        1nat
    } else {
        0nat
    })
}

/// The child a ray reaches when it leaves child `n` through the far plane of
/// axis `a`: the neighbour across that plane, or 8 (out of the node) when
/// `n` already lies in the upper half along `a`.
pub open spec fn spec_next_node(n: nat, a: Axis) -> nat {
    if has_bit(n, a) {
        8
    } else {
        n + axis_bit(a)
    }
}

/// The first child a ray enters, when it enters the node through the plane of
/// axis `entry`: for each other axis, the upper half when the ray has already
/// crossed that axis' middle plane on entry.
pub open spec fn spec_first_node(entry: Axis, x_passed: bool, y_passed: bool, z_passed: bool) -> nat {
    octant_number_of_halves(
        entry != Axis::X && x_passed,
        entry != Axis::Y && y_passed,
        entry != Axis::Z && z_passed,
    )
}

/// Where a ray is after leaving children through the planes `exits`, one
/// after another, starting in child `n` (8 once it has left the node).
pub open spec fn walk(n: nat, exits: Seq<Axis>) -> nat
    decreases exits.len(),
{
    if exits.len() == 0 || n >= 8 {
        n
    } else {
        walk(spec_next_node(n, exits[0]), exits.drop_first())
    }
}

/// The mirror mask of a ray direction: bit 4 when it points towards negative
/// x, 2 for y, 1 for z. Traversal runs on the mirrored ray, whose direction
/// is non-negative, and child `n` of the mirrored node is child `n ^ mask` of
/// the real one.
pub fn direction_mask(x_neg: bool, y_neg: bool, z_neg: bool) -> (r: usize)
    ensures
        r == octant_number_of_halves(x_neg, y_neg, z_neg),
        r < 8,
{
    let mut a: usize = 0;
    if x_neg {
        a = a + 4;
    }
    if y_neg {
        a = a + 2;
    }
    if z_neg {
        a = a + 1;
    }
    a
}

/// The first child a ray enters; see `spec_first_node`. `x_passed` tells
/// whether the x middle plane is crossed before the entry point, and likewise
/// for y and z; the flag of the entry axis itself is not consulted.
pub fn first_node(entry: Axis, x_passed: bool, y_passed: bool, z_passed: bool) -> (r: usize)
    ensures
        r == spec_first_node(entry, x_passed, y_passed, z_passed),
        r < 8,
        !has_bit(r as nat, entry),
{
    let mut n: usize = 0;
    match entry {
        Axis::Z => {
            if x_passed {
                n = n + 4;
            }
            if y_passed {
                n = n + 2;
            }
        },
        Axis::Y => {
            if x_passed {
                n = n + 4;
            }
            if z_passed {
                n = n + 1;
            }
        },
        Axis::X => {
            if y_passed {
                n = n + 2;
            }
            if z_passed {
                n = n + 1;
            }
        },
    }
    n
}

/// Whether child `n` covers the upper half of the node along `axis`, that is
/// whether its parameter interval along `axis` runs from the middle plane to
/// the far plane (rather than from the near plane to the middle).
pub fn uses_upper_half(n: usize, axis: Axis) -> (r: bool)
    requires
        n < 8,
    ensures
        r == has_bit(n as nat, axis),
{
    match axis {
        Axis::X => n / 4 % 2 == 1,
        Axis::Y => n / 2 % 2 == 1,
        Axis::Z => n % 2 == 1,
    }
}

/// The child a ray moves to from child `n` when it leaves through the far
/// plane of `exit`; 8 means it has left the node.
pub fn next_node(n: usize, exit: Axis) -> (r: usize)
    requires
        n < 8,
    ensures
        r == spec_next_node(n as nat, exit),
        r > n,
        r <= 8,
{
    if uses_upper_half(n, exit) {
        8
    } else {
        match exit {
            Axis::X => n + 4,
            Axis::Y => n + 2,
            Axis::Z => n + 1,
        }
    }
}

/// The real child visited when the mirrored traversal is in child `n`.
pub fn child_index(n: usize, mask: usize) -> (r: usize)
    requires
        n < 8,
        mask < 8,
    ensures
        r == n ^ mask,
        r < 8,
{
    assert(n ^ mask < 8) by (bit_vector)
        requires
            n < 8,
            mask < 8,
    ;
    n ^ mask
}

/// Mirroring is its own inverse and maps distinct children to distinct
/// children.
pub proof fn lemma_child_index_involution(n: usize, m: usize, mask: usize)
    requires
        n < 8,
        m < 8,
        mask < 8,
    ensures
        (n ^ mask) ^ mask == n,
        (n ^ mask) == (m ^ mask) ==> n == m,
{
    assert((n ^ mask) ^ mask == n) by (bit_vector);
    assert((m ^ mask) ^ mask == m) by (bit_vector);
}

/// Leaving a child through an axis plane either leaves the node or moves to
/// a child that is in the upper half along one more axis, and in the same
/// halves along the other axes.
pub proof fn lemma_next_node_adds_one_axis(n: nat, a: Axis)
    requires
        n < 8,
    ensures
        spec_next_node(n, a) == 8 <==> has_bit(n, a),
        spec_next_node(n, a) != 8 ==> {
            &&& spec_next_node(n, a) < 8
            &&& has_bit(spec_next_node(n, a), a)
            &&& upper_count(spec_next_node(n, a)) == upper_count(n) + 1
            &&& forall|b: Axis|
                b != a ==> (has_bit(spec_next_node(n, a), b) <==> #[trigger] has_bit(n, b))
        },
{
    assert(n == 0 || n == 1 || n == 2 || n == 3 || n == 4 || n == 5 || n == 6 || n == 7);
}

/// A ray leaves any node after passing through at most four of its children:
/// whatever planes it leaves them by, four exits starting from any child take
/// it out of the node.
pub proof fn lemma_walk_leaves_node(n: nat, exits: Seq<Axis>)
    requires
        n <= 8,
        exits.len() + upper_count(n) >= 4,
    ensures
        walk(n, exits) == 8,
    decreases exits.len(),
{
    if n == 8 {
        lemma_walk_at_exit(exits);
    } else {
        assert(n == 0 || n == 1 || n == 2 || n == 3 || n == 4 || n == 5 || n == 6 || n == 7);
        assert(upper_count(n) <= 3);
        let m = spec_next_node(n, exits[0]);
        lemma_next_node_adds_one_axis(n, exits[0]);
        if m != 8 {
            lemma_walk_leaves_node(m, exits.drop_first());
        } else {
            lemma_walk_at_exit(exits.drop_first());
        }
    }
}

proof fn lemma_walk_at_exit(exits: Seq<Axis>)
    ensures
        walk(8, exits) == 8,
{
}

} // verus!
