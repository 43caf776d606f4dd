//! Dense tables of binary32 bit patterns.
//!
//! [`Grid`] has two axes and [`Cube`] three. Both keep their cells in an
//! `ndarray` array; what such an array holds is named by [`grid_cells`] and
//! [`cube_cells`], its axis lengths by [`grid_shape`] and [`cube_shape`]. The
//! functions of this file that reach into `ndarray` are trusted to do to
//! those what their contracts say; everything else is proved from them.

use ndarray::Array2;
use ndarray::Array3;
use ndarray::Axis;
use ndarray::Slice;
use vstd::prelude::*;

verus! {

/// A table with two axes, held by `ndarray::Array2<u32>`.
///
/// The verifier does not look into the array: [`grid_shape`] and
/// [`grid_cells`] stand for what it holds.
#[verifier::external_body]
#[derive(Debug)]
pub struct Grid {
    inner: Array2<u32>,
}

/// A table with three axes, held by `ndarray::Array3<u32>`.
///
/// The verifier does not look into the array: [`cube_shape`] and
/// [`cube_cells`] stand for what it holds.
#[verifier::external_body]
#[derive(Debug)]
pub struct Cube {
    inner: Array3<u32>,
}

/// The lengths of the two axes of a grid.
pub uninterp spec fn grid_shape(g: Grid) -> (nat, nat);

/// The cells of a grid, by their two indices.
pub uninterp spec fn grid_cells(g: Grid) -> Map<(int, int), u32>;

/// The lengths of the three axes of a cube.
pub uninterp spec fn cube_shape(c: Cube) -> (nat, nat, nat);

/// The cells of a cube, by their three indices.
pub uninterp spec fn cube_cells(c: Cube) -> Map<(int, int, int), u32>;

/// An axis length as it counts for the size of a table: an empty axis counts
/// as one.
pub open spec fn positive(len: int) -> int {
    if len == 0 {
        1
    } else {
        len
    }
}

/// Whether a table with these axis lengths can be allocated: its cells, four
/// bytes each, must not take more than `isize::MAX` bytes, empty axes left
/// out of the product.
pub open spec fn fits(a: int, b: int, c: int) -> bool {
    positive(a) * positive(b) * positive(c) * 4 <= isize::MAX
}

/// Calls `Array2::from_elem` of ndarray.
///
/// Trusted: the array has the two lengths asked for, and every cell holds
/// `elem`. The call panics only where the size does not fit.
#[verifier::external_body]
pub(crate) fn grid_from_elem(rows: usize, cols: usize, elem: u32) -> (g: Grid)
    requires
        fits(rows as int, cols as int, 1),
    ensures
        grid_shape(g) == (rows as nat, cols as nat),
        forall|i: int, j: int|
            0 <= i < rows && 0 <= j < cols ==> #[trigger] grid_cells(g)[(i, j)] == elem,
{
    Grid { inner: Array2::from_elem((rows, cols), elem) }
}

/// Calls `ArrayBase::dim` of ndarray.
///
/// Trusted: it returns the lengths of the two axes.
#[verifier::external_body]
pub(crate) fn grid_dim(g: &Grid) -> (r: (usize, usize))
    ensures
        (r.0 as nat, r.1 as nat) == grid_shape(*g),
{
    g.inner.dim()
}

/// Reads one cell through ndarray's indexing, `array[[i, j]]`.
///
/// Trusted: it returns the cell at these indices. It panics only on an
/// index that is out of bounds.
#[verifier::external_body]
pub(crate) fn grid_get(g: &Grid, i: usize, j: usize) -> (v: u32)
    requires
        i < grid_shape(*g).0,
        j < grid_shape(*g).1,
    ensures
        v == grid_cells(*g)[(i as int, j as int)],
{
    g.inner[[i, j]]
}

/// Writes one cell through ndarray's indexing, `array[[i, j]] = v`.
///
/// Trusted: the cell at these indices then holds `v`, the axis lengths and
/// all other cells stay. It panics only on an index that is out of bounds.
#[verifier::external_body]
pub(crate) fn grid_set(g: &mut Grid, i: usize, j: usize, v: u32)
    requires
        i < grid_shape(*old(g)).0,
        j < grid_shape(*old(g)).1,
    ensures
        grid_shape(*final(g)) == grid_shape(*old(g)),
        grid_cells(*final(g)) == grid_cells(*old(g)).insert((i as int, j as int), v),
{
    g.inner[[i, j]] = v;
}

/// Calls `Array3::from_elem` of ndarray.
///
/// Trusted: the array has the three lengths asked for, and every cell holds
/// `elem`. The call panics only where the size does not fit.
#[verifier::external_body]
pub(crate) fn cube_from_elem(a: usize, b: usize, c: usize, elem: u32) -> (t: Cube)
    requires
        fits(a as int, b as int, c as int),
    ensures
        cube_shape(t) == (a as nat, b as nat, c as nat),
        forall|i: int, j: int, k: int|
            0 <= i < a && 0 <= j < b && 0 <= k < c ==> #[trigger] cube_cells(t)[(i, j, k)] == elem,
{
    Cube { inner: Array3::from_elem((a, b, c), elem) }
}

/// Calls `ArrayBase::dim` of ndarray.
///
/// Trusted: it returns the lengths of the three axes.
#[verifier::external_body]
pub(crate) fn cube_dim(t: &Cube) -> (r: (usize, usize, usize))
    ensures
        (r.0 as nat, r.1 as nat, r.2 as nat) == cube_shape(*t),
{
    t.inner.dim()
}

/// Reads one cell through ndarray's indexing, `array[[i, j, k]]`.
///
/// Trusted: it returns the cell at these indices. It panics only on an
/// index that is out of bounds.
#[verifier::external_body]
pub(crate) fn cube_get(t: &Cube, i: usize, j: usize, k: usize) -> (v: u32)
    requires
        i < cube_shape(*t).0,
        j < cube_shape(*t).1,
        k < cube_shape(*t).2,
    ensures
        v == cube_cells(*t)[(i as int, j as int, k as int)],
{
    t.inner[[i, j, k]]
}

/// Writes one cell through ndarray's indexing, `array[[i, j, k]] = v`.
///
/// Trusted: the cell at these indices then holds `v`, the axis lengths and
/// all other cells stay. It panics only on an index that is out of bounds.
#[verifier::external_body]
pub(crate) fn cube_set(t: &mut Cube, i: usize, j: usize, k: usize, v: u32)
    requires
        i < cube_shape(*old(t)).0,
        j < cube_shape(*old(t)).1,
        k < cube_shape(*old(t)).2,
    ensures
        cube_shape(*final(t)) == cube_shape(*old(t)),
        cube_cells(*final(t)) == cube_cells(*old(t)).insert((i as int, j as int, k as int), v),
{
    t.inner[[i, j, k]] = v;
}

/// Calls `index_axis_mut(Axis(0), i)` of ndarray on the cube and `assign`
/// on the view that it returns, with the grid as the source.
///
/// Trusted: for a grid whose two lengths are the cube's second and third,
/// the cube's cells with first index `i` become the grid's cells; the axis
/// lengths and the cells with another first index stay. The calls panic only
/// where `i` is out of bounds or the lengths differ.
#[verifier::external_body]
pub(crate) fn cube_assign_plane(t: &mut Cube, i: usize, g: &Grid)
    requires
        i < cube_shape(*old(t)).0,
        grid_shape(*g) == (cube_shape(*old(t)).1, cube_shape(*old(t)).2),
    ensures
        cube_shape(*final(t)) == cube_shape(*old(t)),
        forall|p: int, j: int, k: int|
            0 <= p < cube_shape(*old(t)).0 && 0 <= j < cube_shape(*old(t)).1 && 0 <= k
                < cube_shape(*old(t)).2 ==> #[trigger] cube_cells(*final(t))[(p, j, k)] == (if p
                == i {
                grid_cells(*g)[(j, k)]
            } else {
                cube_cells(*old(t))[(p, j, k)]
            }),
{
    t.inner.index_axis_mut(Axis(0), i).assign(&g.inner);
}

/// Calls `slice_axis_mut(Axis(0), ..)` of ndarray on the cube, from `at` to
/// `to`, `slice_axis(Axis(0), ..)` on the source, from `lo` to `hi`, and
/// `assign` from the one view to the other.
///
/// Trusted: for two ranges of one length and a source whose second and
/// third lengths are the cube's, the cube's cells with first index `at + d`
/// become the source's cells with first index `lo + d`; the axis lengths
/// and the other cells stay. The calls panic only where a range is out of
/// bounds or the lengths differ.
#[verifier::external_body]
pub(crate) fn cube_assign_span(
    t: &mut Cube,
    at: usize,
    to: usize,
    src: &Cube,
    lo: usize,
    hi: usize,
)
    requires
        lo <= hi <= cube_shape(*src).0,
        at <= to <= cube_shape(*old(t)).0,
        to - at == hi - lo,
        cube_shape(*src).1 == cube_shape(*old(t)).1,
        cube_shape(*src).2 == cube_shape(*old(t)).2,
    ensures
        cube_shape(*final(t)) == cube_shape(*old(t)),
        forall|p: int, j: int, k: int|
            0 <= p < cube_shape(*old(t)).0 && 0 <= j < cube_shape(*old(t)).1 && 0 <= k
                < cube_shape(*old(t)).2 ==> #[trigger] cube_cells(*final(t))[(p, j, k)] == (if at
                <= p < to {
                cube_cells(*src)[(lo + (p - at), j, k)]
            } else {
                cube_cells(*old(t))[(p, j, k)]
            }),
{
    let from = src.inner.slice_axis(Axis(0), Slice::from(lo..hi));
    t.inner.slice_axis_mut(Axis(0), Slice::from(at..to)).assign(&from);
}

/// Decides [`fits`] without overflow.
pub fn can_allocate(a: usize, b: usize, c: usize) -> (r: bool)
    ensures
        r == fits(a as int, b as int, c as int),
{
    let a1: usize = if a == 0 { 1 } else { a };
    let b1: usize = if b == 0 { 1 } else { b };
    let c1: usize = if c == 0 { 1 } else { c };
    let limit: usize = isize::MAX as usize;
    match a1.checked_mul(b1) {
        None => {
            assert(a1 * b1 * c1 * 4 > isize::MAX) by (nonlinear_arith)
                requires
                    a1 * b1 > isize::MAX,
                    c1 >= 1,
            ;
            false
        },
        Some(ab) => match ab.checked_mul(c1) {
            None => {
                assert(ab * c1 * 4 > isize::MAX) by (nonlinear_arith)
                    requires
                        ab * c1 > isize::MAX,
                ;
                false
            },
            Some(abc) => match abc.checked_mul(4) {
                None => false,
                Some(bytes) => bytes <= limit,
            },
        },
    }
}

impl Grid {
    /// The length of the first axis.
    pub open spec fn rows(&self) -> nat {
        grid_shape(*self).0
    }

    /// The length of the second axis.
    pub open spec fn cols(&self) -> nat {
        grid_shape(*self).1
    }

    /// The cell at `(i, j)`.
    pub open spec fn at(&self, i: int, j: int) -> u32 {
        grid_cells(*self)[(i, j)]
    }

    /// A grid of `rows` by `cols` cells that all hold `elem`; none where a
    /// grid of that size cannot be allocated.
    pub fn from_elem(rows: usize, cols: usize, elem: u32) -> (r: Option<Grid>)
        ensures
            r is Some <==> fits(rows as int, cols as int, 1),
            r matches Some(g) ==> g.rows() == rows && g.cols() == cols && forall|i: int, j: int|
                0 <= i < rows && 0 <= j < cols ==> #[trigger] g.at(i, j) == elem,
    {
        if can_allocate(rows, cols, 1) {
            Some(grid_from_elem(rows, cols, elem))
        } else {
            None
        }
    }

    /// The lengths of the two axes.
    pub fn dim(&self) -> (r: (usize, usize))
        ensures
            r.0 == self.rows(),
            r.1 == self.cols(),
    {
        grid_dim(self)
    }

    /// The cell at `(i, j)`; none where the grid has no such cell.
    pub fn get(&self, i: usize, j: usize) -> (r: Option<u32>)
        ensures
            r == if i < self.rows() && j < self.cols() {
                Some(self.at(i as int, j as int))
            } else {
                None
            },
    {
        let (rows, cols) = grid_dim(self);
        if i < rows && j < cols {
            Some(grid_get(self, i, j))
        } else {
            None
        }
    }

    /// Puts `v` into the cell at `(i, j)` and says whether the grid has such
    /// a cell; where it has none, nothing changes.
    pub fn set(&mut self, i: usize, j: usize, v: u32) -> (r: bool)
        ensures
            r == (i < old(self).rows() && j < old(self).cols()),
            final(self).rows() == old(self).rows(),
            final(self).cols() == old(self).cols(),
            forall|p: int, q: int|
                0 <= p < old(self).rows() && 0 <= q < old(self).cols() ==> #[trigger] final(self).at(p, q) == (if r && p == i && q == j {
                    v
                } else {
                    old(self).at(p, q)
                }),
    {
        let (rows, cols) = grid_dim(self);
        if i < rows && j < cols {
            grid_set(self, i, j, v);
            true
        } else {
            false
        }
    }
    /// The cells of row `i` from the first column to the last; none where
    /// the grid has no such row.
    pub fn row(&self, i: usize) -> (r: Option<Vec<u32>>)
        ensures
            r is Some <==> i < self.rows(),
            r matches Some(v) ==> v@.len() == self.cols() && forall|j: int|
                0 <= j < self.cols() ==> #[trigger] v@[j] == self.at(i as int, j),
    {
        let (rows, cols) = grid_dim(self);
        if i >= rows {
            return None;
        }
        let mut out: Vec<u32> = Vec::new();
        let mut j: usize = 0;
        while j < cols
            invariant
                j <= cols,
                i < rows,
                (rows as nat, cols as nat) == grid_shape(*self),
                out@.len() == j,
                forall|q: int| 0 <= q < j ==> #[trigger] out@[q] == self.at(i as int, q),
            decreases cols - j,
        {
            out.push(grid_get(self, i, j));
            j += 1;
        }
        Some(out)
    }

    /// The cells of column `j` from the first row to the last; none where
    /// the grid has no such column.
    pub fn column(&self, j: usize) -> (r: Option<Vec<u32>>)
        ensures
            r is Some <==> j < self.cols(),
            r matches Some(v) ==> v@.len() == self.rows() && forall|i: int|
                0 <= i < self.rows() ==> #[trigger] v@[i] == self.at(i, j as int),
    {
        let (rows, cols) = grid_dim(self);
        if j >= cols {
            return None;
        }
        let mut out: Vec<u32> = Vec::new();
        let mut i: usize = 0;
        while i < rows
            invariant
                i <= rows,
                j < cols,
                (rows as nat, cols as nat) == grid_shape(*self),
                out@.len() == i,
                forall|q: int| 0 <= q < i ==> #[trigger] out@[q] == self.at(q, j as int),
            decreases rows - i,
        {
            out.push(grid_get(self, i, j));
            i += 1;
        }
        Some(out)
    }
}

impl Cube {
    /// The length of the first axis.
    pub open spec fn len0(&self) -> nat {
        cube_shape(*self).0
    }

    /// The length of the second axis.
    pub open spec fn len1(&self) -> nat {
        cube_shape(*self).1
    }

    /// The length of the third axis.
    pub open spec fn len2(&self) -> nat {
        cube_shape(*self).2
    }

    /// The cell at `(i, j, k)`.
    pub open spec fn at(&self, i: int, j: int, k: int) -> u32 {
        cube_cells(*self)[(i, j, k)]
    }

    /// A cube of `a` by `b` by `c` cells that all hold `elem`; none where a
    /// cube of that size cannot be allocated.
    pub fn from_elem(a: usize, b: usize, c: usize, elem: u32) -> (r: Option<Cube>)
        ensures
            r is Some <==> fits(a as int, b as int, c as int),
            r matches Some(t) ==> t.len0() == a && t.len1() == b && t.len2() == c && forall|
                i: int,
                j: int,
                k: int,
            |
                0 <= i < a && 0 <= j < b && 0 <= k < c ==> #[trigger] t.at(i, j, k) == elem,
    {
        if can_allocate(a, b, c) {
            Some(cube_from_elem(a, b, c, elem))
        } else {
            None
        }
    }

    /// The lengths of the three axes.
    pub fn dim(&self) -> (r: (usize, usize, usize))
        ensures
            r.0 == self.len0(),
            r.1 == self.len1(),
            r.2 == self.len2(),
    {
        cube_dim(self)
    }

    /// The cell at `(i, j, k)`; none where the cube has no such cell.
    pub fn get(&self, i: usize, j: usize, k: usize) -> (r: Option<u32>)
        ensures
            r == if i < self.len0() && j < self.len1() && k < self.len2() {
                Some(self.at(i as int, j as int, k as int))
            } else {
                None
            },
    {
        let (a, b, c) = cube_dim(self);
        if i < a && j < b && k < c {
            Some(cube_get(self, i, j, k))
        } else {
            None
        }
    }

    /// Puts `v` into the cell at `(i, j, k)` and says whether the cube has
    /// such a cell; where it has none, nothing changes.
    pub fn set(&mut self, i: usize, j: usize, k: usize, v: u32) -> (r: bool)
        ensures
            r == (i < old(self).len0() && j < old(self).len1() && k < old(self).len2()),
            final(self).len0() == old(self).len0(),
            final(self).len1() == old(self).len1(),
            final(self).len2() == old(self).len2(),
            forall|p: int, q: int, s: int|
                0 <= p < old(self).len0() && 0 <= q < old(self).len1() && 0 <= s < old(self).len2() ==> #[trigger] final(self).at(p, q, s) == (if r && p == i && q == j && s
                    == k {
                    v
                } else {
                    old(self).at(p, q, s)
                }),
    {
        let (a, b, c) = cube_dim(self);
        if i < a && j < b && k < c {
            cube_set(self, i, j, k, v);
            true
        } else {
            false
        }
    }

    /// The cells with first index `i` and second index `j`, from the first
    /// to the last third index; none where the cube has no such cells.
    pub fn lane(&self, i: usize, j: usize) -> (r: Option<Vec<u32>>)
        ensures
            r is Some <==> i < self.len0() && j < self.len1(),
            r matches Some(v) ==> v@.len() == self.len2() && forall|k: int|
                0 <= k < self.len2() ==> #[trigger] v@[k] == self.at(i as int, j as int, k),
    {
        let (a, b, c) = cube_dim(self);
        if i >= a || j >= b {
            return None;
        }
        let mut out: Vec<u32> = Vec::new();
        let mut k: usize = 0;
        while k < c
            invariant
                k <= c,
                i < a,
                j < b,
                (a as nat, b as nat, c as nat) == cube_shape(*self),
                out@.len() == k,
                forall|q: int| 0 <= q < k ==> #[trigger] out@[q] == self.at(i as int, j as int, q),
            decreases c - k,
        {
            out.push(cube_get(self, i, j, k));
            k += 1;
        }
        Some(out)
    }
}

} // verus!
