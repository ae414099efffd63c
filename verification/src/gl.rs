//! The layout of interleaved vertex attributes in a vertex buffer: where each
//! attribute starts and how far apart consecutive vertices are.
use std::collections::HashSet;
use vstd::prelude::*;

verus! {

broadcast use vstd::std_specs::hash::group_hash_axioms;

/// Size in bytes of one component (a 32-bit float).
pub const COMPONENT_SIZE: u32 = 4;

/// One vertex attribute: its shader location and its number of float
/// components.
#[derive(Debug, Clone, Copy, PartialEq, Eq, Structural)]
pub struct AttributeFormat {
    pub location: u32,
    pub n_components: u32,
    pub normalized: bool,
}

/// Bytes taken by the attributes `attrs`, one after another.
pub open spec fn attributes_size(attrs: Seq<AttributeFormat>) -> int
    decreases attrs.len(),
{
    if attrs.len() == 0 {
        0
    } else {
        attributes_size(attrs.drop_last()) + attrs.last().n_components * COMPONENT_SIZE
    }
}

/// The shader locations of `attrs`.
pub open spec fn locations_of(attrs: Seq<AttributeFormat>) -> Set<u32> {
    Set::new(|l: u32| exists|i: int| 0 <= i < attrs.len() && #[trigger] attrs[i].location == l)
}

/// The attributes of a vertex array, the locations already bound, and the
/// stride reached so far.
#[derive(Debug)]
pub struct AttributeLayout {
    pub attributes: Vec<AttributeFormat>,
    pub used_locations: HashSet<u32>,
    pub stride: u32,
}

impl AttributeLayout {
    /// A layout with no attributes, no bound locations and stride 0.
    pub fn new() -> (r: AttributeLayout)
        ensures
            r.attributes@ == Seq::<AttributeFormat>::empty(),
            r.used_locations@ == Set::<u32>::empty(),
            r.stride == 0,
    {
        AttributeLayout { attributes: Vec::new(), used_locations: HashSet::new(), stride: 0 }
    }

    /// Whether `location` is already bound by an earlier setup.
    pub fn location_in_use(&self, location: u32) -> (r: bool)
        ensures
            r == self.used_locations@.contains(location),
    {
        self.used_locations.contains(&location)
    }

    /// Appends an attribute. Its location must not be bound already.
    pub fn add_attribute(&mut self, format: AttributeFormat)
        requires
            !old(self).used_locations@.contains(format.location),
        ensures
            final(self).attributes@ == old(self).attributes@.push(format),
            final(self).used_locations@ == old(self).used_locations@,
            final(self).stride == old(self).stride,
    {
        self.attributes.push(format);
    }

    /// Lays the attributes out one after another from the current stride:
    /// returns the byte offset of each attribute, marks every location as
    /// bound, and advances the stride past all of them.
    pub fn setup_attributes(&mut self) -> (offsets: Vec<u32>)
        requires
            old(self).stride + attributes_size(old(self).attributes@) <= u32::MAX,
        ensures
            final(self).attributes@ == old(self).attributes@,
            final(self).stride == old(self).stride + attributes_size(old(self).attributes@),
            final(self).used_locations@ == old(self).used_locations@.union(
                locations_of(old(self).attributes@),
            ),
            offsets@.len() == old(self).attributes@.len(),
            forall|i: int|
                0 <= i < offsets@.len() ==> #[trigger] offsets@[i] == old(self).stride
                    + attributes_size(old(self).attributes@.take(i)),
    {
        let ghost attrs = self.attributes@;
        let ghost start = self.stride;
        let ghost used0 = self.used_locations@;
        let mut offsets: Vec<u32> = Vec::new();
        let n = self.attributes.len();
        let mut i: usize = 0;
        assert(attrs.take(0) =~= Seq::<AttributeFormat>::empty());
        assert(locations_of(attrs.take(0)) =~= Set::<u32>::empty());
        while i < n
            invariant
                n == attrs.len(),
                self.attributes@ == attrs,
                0 <= i <= n,
                start + attributes_size(attrs) <= u32::MAX,
                self.stride == start + attributes_size(attrs.take(i as int)),
                self.used_locations@ == used0.union(locations_of(attrs.take(i as int))),
                offsets@.len() == i,
                forall|k: int|
                    0 <= k < i ==> #[trigger] offsets@[k] == start + attributes_size(
                        attrs.take(k),
                    ),
            decreases n - i,
        {
            let a = self.attributes[i];
            proof {
                lemma_size_prefix(attrs, i as int + 1);
                assert(attrs.take(i as int + 1).drop_last() =~= attrs.take(i as int));
            }
            self.used_locations.insert(a.location);
            offsets.push(self.stride);
            self.stride = self.stride + a.n_components * COMPONENT_SIZE;
            proof {
                assert(locations_of(attrs.take(i as int + 1)) =~= locations_of(
                    attrs.take(i as int),
                ).insert(a.location)) by {
                    assert forall|l: u32|
                        locations_of(attrs.take(i as int + 1)).contains(l) implies locations_of(
                        attrs.take(i as int),
                    ).insert(a.location).contains(l) by {
                        let j = choose|j: int|
                            0 <= j < i + 1 && #[trigger] attrs.take(i as int + 1)[j].location == l;
                        if j < i {
                            assert(attrs.take(i as int)[j].location == l);
                        }
                    }
                    assert forall|l: u32|
                        locations_of(attrs.take(i as int)).insert(a.location).contains(
                            l,
                        ) implies locations_of(attrs.take(i as int + 1)).contains(l) by {
                        if l == a.location {
                            assert(attrs.take(i as int + 1)[i as int].location == l);
                        } else {
                            let j = choose|j: int|
                                0 <= j < i && #[trigger] attrs.take(i as int)[j].location == l;
                            assert(attrs.take(i as int + 1)[j].location == l);
                        }
                    }
                }
            }
            i = i + 1;
        }
        assert(attrs.take(n as int) =~= attrs);
        offsets
    }
}

/// The size of a prefix grows by the size of each further attribute, and
/// never exceeds the size of the whole list.
proof fn lemma_size_prefix(attrs: Seq<AttributeFormat>, k: int)
    requires
        0 <= k <= attrs.len(),
    ensures
        0 <= attributes_size(attrs.take(k)) <= attributes_size(attrs),
        k > 0 ==> attributes_size(attrs.take(k)) == attributes_size(attrs.take(k - 1))
            + attrs[k - 1].n_components * COMPONENT_SIZE,
    decreases attrs.len(),
{
    if k > 0 {
        assert(attrs.take(k).drop_last() =~= attrs.take(k - 1));
    }
    if attrs.len() > 0 {
        if k == attrs.len() {
            assert(attrs.take(k) =~= attrs);
            lemma_size_prefix(attrs.drop_last(), k - 1);
            assert(attrs.drop_last().take(k - 1) =~= attrs.take(k - 1));
        } else {
            lemma_size_prefix(attrs.drop_last(), k);
            assert(attrs.drop_last().take(k) =~= attrs.take(k));
        }
    } else {
        assert(attrs.take(k) =~= attrs);
    }
}

} // verus!
