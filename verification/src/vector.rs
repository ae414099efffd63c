//! Square and cubic grids with an odd side length, addressed either by flat
//! index or by coordinates centred on the middle cell.
use vstd::prelude::*;
use vstd::std_specs::cmp::PartialEqSpec;

verus! {

/// Distance from the centre cell to an edge cell of a grid of side `side_len`.
pub open spec fn spec_offset(side_len: nat) -> int {
    (side_len / 2) as int
}

/// A centred coordinate lies on the grid when it is within `offset` of zero.
pub open spec fn coord_in_range(side_len: nat, c: int) -> bool {
    -spec_offset(side_len) <= c <= spec_offset(side_len)
}

/// Flat storage index of the centred cell `(x, y)`: rows of constant `y`
/// are stored one after another.
pub open spec fn flat_index_2d(side_len: nat, x: int, y: int) -> int {
    (x + spec_offset(side_len)) + (y + spec_offset(side_len)) * side_len
}

/// Flat storage index of the centred cell `(x, y, z)`: slabs of constant `z`,
/// each made of rows of constant `y`.
pub open spec fn flat_index_3d(side_len: nat, x: int, y: int, z: int) -> int {
    (x + spec_offset(side_len)) + (y + spec_offset(side_len)) * side_len + (z + spec_offset(
        side_len,
    )) * side_len * side_len
}

/// Every element of `s` is a clone of `d`.
pub open spec fn filled_with<T: Clone>(s: Seq<T>, d: T) -> bool {
    forall|i: int| 0 <= i < s.len() ==> cloned(d, #[trigger] s[i])
}

/// Index of the centre cell, computed without overflow for any odd side length.
fn center_offset(side_len: usize) -> (r: i64)
    requires
        side_len <= i64::MAX,
    ensures
        r == spec_offset(side_len as nat),
        0 <= r,
{
    (side_len / 2) as i64
}

/// Every element of `a` equals the element of `b` at the same position, by
/// the element type's equality.
pub open spec fn elementwise_eq<T: PartialEq>(a: Seq<T>, b: Seq<T>) -> bool {
    &&& a.len() == b.len()
    &&& forall|i: int| 0 <= i < a.len() ==> #[trigger] a[i].eq_spec(&b[i])
}

/// Compares two sequences element by element.
fn slices_eq<T: PartialEq>(a: &[T], b: &[T]) -> (r: bool)
    ensures
        T::obeys_eq_spec() ==> r == elementwise_eq(a@, b@),
{
    if a.len() != b.len() {
        return false;
    }
    let mut i: usize = 0;
    while i < a.len()
        invariant
            a@.len() == b@.len(),
            0 <= i <= a@.len(),
            T::obeys_eq_spec() ==> forall|j: int| 0 <= j < i ==> #[trigger] a@[j].eq_spec(&b@[j]),
        decreases a@.len() - i,
    {
        if !(a[i] == b[i]) {
            return false;
        }
        i = i + 1;
    }
    true
}

#[derive(Debug, Clone)]
pub struct Vector2D<T> {
    side_len: usize,
    storage: Vec<T>,
}

impl<T> View for Vector2D<T> {
    type V = Seq<T>;

    /// Contents, row by row.
    closed spec fn view(&self) -> Seq<T> {
        self.storage@
    }
}

impl<T> Vector2D<T> {
    /// Side length of the grid.
    pub closed spec fn side(&self) -> nat {
        self.side_len as nat
    }

    /// A grid is well formed when its side is odd and it holds `side_len²` cells.
    pub closed spec fn wf(&self) -> bool {
        &&& self.side_len % 2 == 1
        &&& self.storage@.len() == self.side_len * self.side_len
    }

    /// The cell at centred coordinates `(x, y)`.
    pub open spec fn cell(&self, x: int, y: int) -> T {
        self.view()[flat_index_2d(self.side(), x, y)]
    }

    pub proof fn lemma_wf_len(&self)
        requires
            self.wf(),
        ensures
            self.view().len() == self.side() * self.side(),
            self.side() % 2 == 1,
    {
    }
}

impl<T: Clone> Vector2D<T> {
    /// A grid of side `side_len` whose every cell is a clone of `t`.
    /// The side must be odd.
    pub fn new(side_len: usize, t: T) -> (r: Vector2D<T>)
        requires
            side_len % 2 == 1,
            side_len * side_len <= usize::MAX,
        ensures
            r.wf(),
            r.side() == side_len,
            r.view().len() == side_len * side_len,
            filled_with(r.view(), t),
    {
        Vector2D { side_len, storage: vec![t; side_len * side_len] }
    }
}

impl<T: Clone + Default> Vector2D<T> {
    /// A grid of side `side_len` filled with clones of `T::default()`.
    pub fn new_default(side_len: usize) -> (r: Vector2D<T>)
        requires
            side_len % 2 == 1,
            side_len * side_len <= usize::MAX,
        ensures
            r.wf(),
            r.side() == side_len,
            r.view().len() == side_len * side_len,
            exists|d: T| call_ensures(T::default, (), d) && #[trigger] filled_with(r.view(), d),
    {
        let d = T::default();
        let r = Vector2D::new(side_len, d);
        assert(filled_with(r.view(), d));
        r
    }
}

impl<T> Vector2D<T> {
    /// Side length of the grid.
    pub fn side_len(&self) -> (r: usize)
        ensures
            r == self.side(),
    {
        self.side_len
    }

    /// Number of cells.
    pub fn len(&self) -> (r: usize)
        ensures
            r == self.view().len(),
    {
        self.storage.len()
    }

    /// The cells as a slice, row by row.
    pub fn as_slice(&self) -> (r: &[T])
        ensures
            r@ == self.view(),
    {
        self.storage.as_slice()
    }

    /// The cell at flat index `i`.
    pub fn get(&self, i: usize) -> (r: &T)
        requires
            i < self.view().len(),
        ensures
            *r == self.view()[i as int],
    {
        &self.storage[i]
    }

    /// Replaces the cell at flat index `i`.
    pub fn set(&mut self, i: usize, value: T)
        requires
            i < old(self).view().len(),
        ensures
            final(self).side() == old(self).side(),
            final(self).view() == old(self).view().update(i as int, value),
            old(self).wf() ==> final(self).wf(),
    {
        self.storage.set(i, value);
    }

    /// Flat index of the centred cell `(x, y)`.
    pub fn index_of(&self, x: i32, y: i32) -> (r: usize)
        requires
            self.wf(),
            coord_in_range(self.side(), x as int),
            coord_in_range(self.side(), y as int),
        ensures
            r as int == flat_index_2d(self.side(), x as int, y as int),
            r < self.view().len(),
    {
        let s = self.side_len;
        let n = self.storage.len();
        assert(s * s <= usize::MAX);
        assert(s <= i64::MAX) by (nonlinear_arith)
            requires
                s * s <= usize::MAX,
                s >= 1,
                usize::MAX <= u64::MAX,
        ;
        let off = center_offset(s);
        let xi = (x as i64 + off) as usize;
        let yi = (y as i64 + off) as usize;
        assert(xi < s && yi < s);
        assert(xi + yi * s < s * s) by (nonlinear_arith)
            requires
                xi < s,
                yi < s,
        ;
        xi + yi * s
    }

    /// The cell at centred coordinates `(x, y)`; both must lie within
    /// `side_len / 2` of zero.
    pub fn at(&self, x: i32, y: i32) -> (r: &T)
        requires
            self.wf(),
            coord_in_range(self.side(), x as int),
            coord_in_range(self.side(), y as int),
        ensures
            *r == self.cell(x as int, y as int),
    {
        let i = self.index_of(x, y);
        &self.storage[i]
    }

    /// Replaces the cell at centred coordinates `(x, y)`.
    pub fn set_at(&mut self, x: i32, y: i32, value: T)
        requires
            old(self).wf(),
            coord_in_range(old(self).side(), x as int),
            coord_in_range(old(self).side(), y as int),
        ensures
            final(self).wf(),
            final(self).side() == old(self).side(),
            final(self).view() == old(self).view().update(
                flat_index_2d(old(self).side(), x as int, y as int),
                value,
            ),
    {
        let i = self.index_of(x, y);
        self.storage.set(i, value);
    }

    /// The cells, row by row.
    pub fn into_vec(self) -> (r: Vec<T>)
        ensures
            r@ == self.view(),
    {
        self.storage
    }
}

impl<T: PartialEq> Vector2D<T> {
    /// Two grids are equal when they have the same side and equal cells.
    pub fn eq(&self, other: &Vector2D<T>) -> (r: bool)
        ensures
            T::obeys_eq_spec() ==> r == (self.side() == other.side() && elementwise_eq(
                self.view(),
                other.view(),
            )),
    {
        self.side_len == other.side_len && slices_eq(self.storage.as_slice(), other.storage.as_slice())
    }
}

#[derive(Debug, Clone)]
pub struct Vector3D<T> {
    side_len: usize,
    storage: Vec<T>,
}

impl<T> View for Vector3D<T> {
    type V = Seq<T>;

    /// Contents, slab by slab and row by row.
    closed spec fn view(&self) -> Seq<T> {
        self.storage@
    }
}

impl<T> Vector3D<T> {
    /// Side length of the grid.
    pub closed spec fn side(&self) -> nat {
        self.side_len as nat
    }

    /// A grid is well formed when its side is odd and it holds `side_len³` cells.
    pub closed spec fn wf(&self) -> bool {
        &&& self.side_len % 2 == 1
        &&& self.storage@.len() == self.side_len * self.side_len * self.side_len
    }

    /// The cell at centred coordinates `(x, y, z)`.
    pub open spec fn cell(&self, x: int, y: int, z: int) -> T {
        self.view()[flat_index_3d(self.side(), x, y, z)]
    }

    pub proof fn lemma_wf_len(&self)
        requires
            self.wf(),
        ensures
            self.view().len() == self.side() * self.side() * self.side(),
            self.side() % 2 == 1,
    {
    }
}

impl<T: Clone> Vector3D<T> {
    /// A grid of side `side_len` whose every cell is a clone of `t`.
    /// The side must be odd.
    pub fn new(side_len: usize, t: T) -> (r: Vector3D<T>)
        requires
            side_len % 2 == 1,
            side_len * side_len * side_len <= usize::MAX,
        ensures
            r.wf(),
            r.side() == side_len,
            r.view().len() == side_len * side_len * side_len,
            filled_with(r.view(), t),
    {
        assert(side_len * side_len <= side_len * side_len * side_len) by (nonlinear_arith)
            requires
                side_len >= 1,
        ;
        Vector3D { side_len, storage: vec![t; side_len * side_len * side_len] }
    }
}

impl<T: Clone + Default> Vector3D<T> {
    /// A grid of side `side_len` filled with clones of `T::default()`.
    pub fn new_default(side_len: usize) -> (r: Vector3D<T>)
        requires
            side_len % 2 == 1,
            side_len * side_len * side_len <= usize::MAX,
        ensures
            r.wf(),
            r.side() == side_len,
            r.view().len() == side_len * side_len * side_len,
            exists|d: T| call_ensures(T::default, (), d) && #[trigger] filled_with(r.view(), d),
    {
        let d = T::default();
        let r = Vector3D::new(side_len, d);
        assert(filled_with(r.view(), d));
        r
    }
}

impl<T> Vector3D<T> {
    /// Side length of the grid.
    pub fn side_len(&self) -> (r: usize)
        ensures
            r == self.side(),
    {
        self.side_len
    }

    /// Number of cells.
    pub fn len(&self) -> (r: usize)
        ensures
            r == self.view().len(),
    {
        self.storage.len()
    }

    /// The cells as a slice.
    pub fn as_slice(&self) -> (r: &[T])
        ensures
            r@ == self.view(),
    {
        self.storage.as_slice()
    }

    /// The cell at flat index `i`.
    pub fn get(&self, i: usize) -> (r: &T)
        requires
            i < self.view().len(),
        ensures
            *r == self.view()[i as int],
    {
        &self.storage[i]
    }

    /// Replaces the cell at flat index `i`.
    pub fn set(&mut self, i: usize, value: T)
        requires
            i < old(self).view().len(),
        ensures
            final(self).side() == old(self).side(),
            final(self).view() == old(self).view().update(i as int, value),
            old(self).wf() ==> final(self).wf(),
    {
        self.storage.set(i, value);
    }

    /// Flat index of the centred cell `(x, y, z)`.
    pub fn index_of(&self, x: i32, y: i32, z: i32) -> (r: usize)
        requires
            self.wf(),
            coord_in_range(self.side(), x as int),
            coord_in_range(self.side(), y as int),
            coord_in_range(self.side(), z as int),
        ensures
            r as int == flat_index_3d(self.side(), x as int, y as int, z as int),
            r < self.view().len(),
    {
        let s = self.side_len;
        let n = self.storage.len();
        assert(s * s * s <= usize::MAX);
        assert(s <= i64::MAX) by (nonlinear_arith)
            requires
                s * s * s <= usize::MAX,
                s >= 1,
                usize::MAX <= u64::MAX,
        ;
        let off = center_offset(s);
        let xi = (x as i64 + off) as usize;
        let yi = (y as i64 + off) as usize;
        let zi = (z as i64 + off) as usize;
        assert(xi < s && yi < s && zi < s);
        assert(xi + yi * s + zi * s * s < s * s * s) by (nonlinear_arith)
            requires
                xi < s,
                yi < s,
                zi < s,
        ;
        assert(zi * s * s + yi * s + xi < s * s * s && yi * s < s * s && zi * s < s * s && s * s
            <= s * s * s) by (nonlinear_arith)
            requires
                xi < s,
                yi < s,
                zi < s,
        ;
        let row = yi * s;
        let slab = zi * s;
        let slab_start = slab * s;
        xi + row + slab_start
    }

    /// The cell at centred coordinates `(x, y, z)`; each must lie within
    /// `side_len / 2` of zero.
    pub fn at(&self, x: i32, y: i32, z: i32) -> (r: &T)
        requires
            self.wf(),
            coord_in_range(self.side(), x as int),
            coord_in_range(self.side(), y as int),
            coord_in_range(self.side(), z as int),
        ensures
            *r == self.cell(x as int, y as int, z as int),
    {
        let i = self.index_of(x, y, z);
        &self.storage[i]
    }

    /// Replaces the cell at centred coordinates `(x, y, z)`.
    pub fn set_at(&mut self, x: i32, y: i32, z: i32, value: T)
        requires
            old(self).wf(),
            coord_in_range(old(self).side(), x as int),
            coord_in_range(old(self).side(), y as int),
            coord_in_range(old(self).side(), z as int),
        ensures
            final(self).wf(),
            final(self).side() == old(self).side(),
            final(self).view() == old(self).view().update(
                flat_index_3d(old(self).side(), x as int, y as int, z as int),
                value,
            ),
    {
        let i = self.index_of(x, y, z);
        self.storage.set(i, value);
    }

    /// The cells, in storage order.
    pub fn into_vec(self) -> (r: Vec<T>)
        ensures
            r@ == self.view(),
    {
        self.storage
    }
}

impl<T: PartialEq> Vector3D<T> {
    /// Two grids are equal when they have the same side and equal cells.
    pub fn eq(&self, other: &Vector3D<T>) -> (r: bool)
        ensures
            T::obeys_eq_spec() ==> r == (self.side() == other.side() && elementwise_eq(
                self.view(),
                other.view(),
            )),
    {
        self.side_len == other.side_len && slices_eq(self.storage.as_slice(), other.storage.as_slice())
    }
}

/// Distinct in-range centred cells of a square grid have distinct flat
/// indices, and every such index lies in `[0, side²)`.
pub proof fn lemma_flat_index_2d_injective(side_len: nat, x1: int, y1: int, x2: int, y2: int)
    requires
        side_len % 2 == 1,
        coord_in_range(side_len, x1),
        coord_in_range(side_len, y1),
        coord_in_range(side_len, x2),
        coord_in_range(side_len, y2),
    ensures
        0 <= flat_index_2d(side_len, x1, y1) < side_len * side_len,
        flat_index_2d(side_len, x1, y1) == flat_index_2d(side_len, x2, y2) ==> x1 == x2 && y1
            == y2,
{
    let o = spec_offset(side_len);
    let s = side_len as int;
    let (a1, b1, a2, b2) = (x1 + o, y1 + o, x2 + o, y2 + o);
    assert(0 <= a1 < s && 0 <= b1 < s && 0 <= a2 < s && 0 <= b2 < s);
    lemma_row_major_unique(s, a1, b1, a2, b2);
}

/// Distinct in-range centred cells of a cubic grid have distinct flat
/// indices, and every such index lies in `[0, side³)`.
pub proof fn lemma_flat_index_3d_injective(
    side_len: nat,
    x1: int,
    y1: int,
    z1: int,
    x2: int,
    y2: int,
    z2: int,
)
    requires
        side_len % 2 == 1,
        coord_in_range(side_len, x1),
        coord_in_range(side_len, y1),
        coord_in_range(side_len, z1),
        coord_in_range(side_len, x2),
        coord_in_range(side_len, y2),
        coord_in_range(side_len, z2),
    ensures
        0 <= flat_index_3d(side_len, x1, y1, z1) < side_len * side_len * side_len,
        flat_index_3d(side_len, x1, y1, z1) == flat_index_3d(side_len, x2, y2, z2) ==> x1 == x2
            && y1 == y2 && z1 == z2,
{
    let o = spec_offset(side_len);
    let s = side_len as int;
    let (a1, b1, c1, a2, b2, c2) = (x1 + o, y1 + o, z1 + o, x2 + o, y2 + o, z2 + o);
    assert(0 <= a1 < s && 0 <= b1 < s && 0 <= c1 < s && 0 <= a2 < s && 0 <= b2 < s && 0 <= c2
        < s);
    lemma_row_major_unique(s, a1, b1, a2, b2);
    lemma_row_major_unique(s, a2, b2, a1, b1);
    let r1 = a1 + b1 * s;
    let r2 = a2 + b2 * s;
    assert(s <= s * s) by (nonlinear_arith)
        requires
            1 <= s,
    ;
    lemma_row_major_unique(s * s, r1, c1, r2, c2);
    assert(c1 * s * s == c1 * (s * s) && c2 * s * s == c2 * (s * s)) by (nonlinear_arith);
    assert(s * s * s == (s * s) * s) by (nonlinear_arith);
    assert(r1 + c1 * (s * s) < (s * s) * s) by (nonlinear_arith)
        requires
            0 <= r1 < s * s,
            0 <= c1 < s,
    ;
    assert(flat_index_3d(side_len, x1, y1, z1) == r1 + c1 * (s * s));
    if flat_index_3d(side_len, x1, y1, z1) == flat_index_3d(side_len, x2, y2, z2) {
        assert(r1 + c1 * (s * s) == r2 + c2 * (s * s));
        lemma_row_major_unique(s, a1, b1, a2, b2);
    }
}

/// Row-major positions `a + b * s` with `0 <= a, b < s` are distinct for
/// distinct pairs and lie in `[0, s²)`.
proof fn lemma_row_major_unique(s: int, a1: int, b1: int, a2: int, b2: int)
    requires
        0 <= a1 < s,
        0 <= b1 < s,
        0 <= a2 < s,
        0 <= b2 < s,
    ensures
        0 <= a1 + b1 * s < s * s,
        a1 + b1 * s == a2 + b2 * s ==> a1 == a2 && b1 == b2,
{
    assert(0 <= a1 + b1 * s < s * s) by (nonlinear_arith)
        requires
            0 <= a1 < s,
            0 <= b1 < s,
    ;
    if a1 + b1 * s == a2 + b2 * s {
        if b1 < b2 {
            assert(b1 * s + s <= b2 * s) by (nonlinear_arith)
                requires
                    b1 < b2,
                    0 < s,
            ;
        } else if b2 < b1 {
            assert(b2 * s + s <= b1 * s) by (nonlinear_arith)
                requires
                    b2 < b1,
                    0 < s,
            ;
        }
    }
}

/// Writing a cell of a square grid and reading it back gives the written
/// value, and leaves every other in-range cell as it was.
pub proof fn lemma_set_at_2d<T>(before: Vector2D<T>, after: Vector2D<T>, x: int, y: int, value: T)
    requires
        before.wf(),
        after.side() == before.side(),
        coord_in_range(before.side(), x),
        coord_in_range(before.side(), y),
        after.view() == before.view().update(flat_index_2d(before.side(), x, y), value),
    ensures
        after.cell(x, y) == value,
        forall|x2: int, y2: int|
            coord_in_range(before.side(), x2) && coord_in_range(before.side(), y2) && (x2 != x
                || y2 != y) ==> #[trigger] after.cell(x2, y2) == before.cell(x2, y2),
{
    lemma_flat_index_2d_injective(before.side(), x, y, x, y);
    assert forall|x2: int, y2: int|
        coord_in_range(before.side(), x2) && coord_in_range(before.side(), y2) && (x2 != x || y2
            != y) implies #[trigger] after.cell(x2, y2) == before.cell(x2, y2) by {
        lemma_flat_index_2d_injective(before.side(), x2, y2, x, y);
    }
}

/// Writing a cell of a cubic grid and reading it back gives the written
/// value, and leaves every other in-range cell as it was.
pub proof fn lemma_set_at_3d<T>(
    before: Vector3D<T>,
    after: Vector3D<T>,
    x: int,
    y: int,
    z: int,
    value: T,
)
    requires
        before.wf(),
        after.side() == before.side(),
        coord_in_range(before.side(), x),
        coord_in_range(before.side(), y),
        coord_in_range(before.side(), z),
        after.view() == before.view().update(flat_index_3d(before.side(), x, y, z), value),
    ensures
        after.cell(x, y, z) == value,
        forall|x2: int, y2: int, z2: int|
            coord_in_range(before.side(), x2) && coord_in_range(before.side(), y2)
                && coord_in_range(before.side(), z2) && (x2 != x || y2 != y || z2 != z)
                ==> #[trigger] after.cell(x2, y2, z2) == before.cell(x2, y2, z2),
{
    lemma_flat_index_3d_injective(before.side(), x, y, z, x, y, z);
    assert forall|x2: int, y2: int, z2: int|
        coord_in_range(before.side(), x2) && coord_in_range(before.side(), y2) && coord_in_range(
            before.side(),
            z2,
        ) && (x2 != x || y2 != y || z2 != z) implies #[trigger] after.cell(x2, y2, z2)
        == before.cell(x2, y2, z2) by {
        lemma_flat_index_3d_injective(before.side(), x2, y2, z2, x, y, z);
    }
}

} // verus!
