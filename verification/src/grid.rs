//! A dense, fixed-size 2-D container with row-major linear indexing.
//!
//! The grid is addressed either by a coordinate pair `(x, y)` or by a linear
//! index `i`; the two are related bijectively by `i == y * width + x` for all
//! in-bounds coordinates. [`Grid::get_index`] is the single chokepoint for
//! bounds safety: every neighbor lookup in the automaton routes through it,
//! and an out-of-bounds coordinate yields `None` rather than an error.
//! Whole-grid traversal is a walk of the linear indices `0 .. len()`, which
//! visits the cells row by row, each row left to right.

use vstd::arithmetic::div_mod::{
    lemma_fundamental_div_mod, lemma_fundamental_div_mod_converse, lemma_mod_bound,
};
use vstd::pervasive::VecAdditionalExecFns;
use vstd::prelude::*;

verus! {

/// The linear index of the cell at column `x` of row `y` in a grid
/// `w` cells wide: rows are stored one after the other, row 0 first.
pub open spec fn cell_index(w: int, x: int, y: int) -> int {
    y * w + x
}

/// Whether `(x, y)` lies inside a `w` by `h` grid.
pub open spec fn in_bounds(w: int, h: int, x: int, y: int) -> bool {
    0 <= x < w && 0 <= y < h
}

/// Half of the index bijection: an in-bounds coordinate pair maps to an
/// in-range linear index, and taking that index apart with `% w` and `/ w`
/// gives the pair back.
pub proof fn lemma_index_roundtrip(w: int, h: int, x: int, y: int)
    requires
        in_bounds(w, h, x, y),
    ensures
        0 <= cell_index(w, x, y) < w * h,
        cell_index(w, x, y) % w == x,
        cell_index(w, x, y) / w == y,
{
    assert(0 <= y * w + x < w * h) by (nonlinear_arith)
        requires
            0 <= x < w,
            0 <= y < h,
    ;
    lemma_fundamental_div_mod_converse(y * w + x, w, y, x);
}

/// The other half of the index bijection: an in-range linear index splits
/// into an in-bounds coordinate pair, and putting that pair back together
/// gives the index back.
pub proof fn lemma_coords_roundtrip(w: int, h: int, i: int)
    requires
        0 < w,
        0 <= i < w * h,
    ensures
        in_bounds(w, h, i % w, i / w),
        cell_index(w, i % w, i / w) == i,
{
    lemma_fundamental_div_mod(i, w);
    lemma_mod_bound(i, w);
    assert(0 <= i / w < h) by (nonlinear_arith)
        requires
            0 < w,
            0 <= i < w * h,
            i == w * (i / w) + (i % w),
            0 <= i % w < w,
    ;
    assert((i / w) * w == w * (i / w)) by (nonlinear_arith);
}

/// A dense `width` by `height` array of cells, stored row-major in a single
/// vector of length `width * height`. The dimensions never change over the
/// grid's lifetime.
pub struct Grid<T> {
    /// The number of columns; immutable for the grid's lifetime.
    pub width: usize,
    /// The number of rows; immutable for the grid's lifetime.
    pub height: usize,
    /// The cells, row-major: row 0 first, each row left to right.
    pub cells: Vec<T>,
}

impl<T> View for Grid<T> {
    type V = Seq<T>;

    open spec fn view(&self) -> Seq<T> {
        self.cells@
    }
}

impl<T> Grid<T> {
    /// The number of columns.
    pub open spec fn spec_width(&self) -> usize {
        self.width
    }

    /// The number of rows.
    pub open spec fn spec_height(&self) -> usize {
        self.height
    }

    /// The grid's structural invariant: positive dimensions and a cell
    /// vector of exactly `width * height` entries, so that every in-bounds
    /// coordinate has exactly one cell and the index arithmetic cannot
    /// overflow a `usize`.
    pub open spec fn wf(&self) -> bool {
        &&& 0 < self.width
        &&& 0 < self.height
        &&& self.cells@.len() == self.width * self.height
        &&& self.width * self.height <= usize::MAX
    }

    /// The number of columns.
    #[verifier::when_used_as_spec(spec_width)]
    pub fn width(&self) -> (w: usize)
        ensures
            w == self.spec_width(),
    {
        self.width
    }

    /// The number of rows.
    #[verifier::when_used_as_spec(spec_height)]
    pub fn height(&self) -> (h: usize)
        ensures
            h == self.spec_height(),
    {
        self.height
    }

    /// The number of cells, `width * height`.
    pub fn len(&self) -> (n: usize)
        ensures
            n == self@.len(),
    {
        self.cells.len()
    }

    /// The linear index of `(x, y)`, or `None` when the coordinate is out of
    /// bounds. Any conversion from a signed coordinate that went negative
    /// wraps far past `width` on these unsigned parameters, so it fails this
    /// check as well.
    pub fn get_index(&self, x: usize, y: usize) -> (r: Option<usize>)
        requires
            self.wf(),
        ensures
            r is Some <==> in_bounds(self.width() as int, self.height() as int, x as int, y as int),
            r matches Some(i) ==> i == cell_index(self.width() as int, x as int, y as int)
                && i < self@.len(),
    {
        if x < self.width && y < self.height {
            proof {
                lemma_index_roundtrip(self.width as int, self.height as int, x as int, y as int);
            }
            Some(y * self.width + x)
        } else {
            None
        }
    }

    /// The coordinate pair of linear index `i`, or `None` when `i` is past
    /// the end of the grid. Inverse of [`Grid::get_index`].
    pub fn get_coords(&self, i: usize) -> (r: Option<(usize, usize)>)
        requires
            self.wf(),
        ensures
            r is Some <==> i < self@.len(),
            r matches Some(xy) ==> {
                &&& xy.0 == i as int % self.width() as int
                &&& xy.1 == i as int / self.width() as int
                &&& in_bounds(self.width() as int, self.height() as int, xy.0 as int, xy.1 as int)
                &&& cell_index(self.width() as int, xy.0 as int, xy.1 as int) == i
            },
    {
        if i < self.cells.len() {
            proof {
                lemma_coords_roundtrip(self.width as int, self.height as int, i as int);
            }
            Some((i % self.width, i / self.width))
        } else {
            None
        }
    }
}

impl<T: Copy> Grid<T> {
    /// A fresh `width` by `height` grid with every cell set to `fill`.
    pub fn new(width: usize, height: usize, fill: T) -> (g: Grid<T>)
        requires
            0 < width,
            0 < height,
            width * height <= usize::MAX,
        ensures
            g.wf(),
            g.width() == width,
            g.height() == height,
            g@ == Seq::new((width * height) as nat, |i: int| fill),
    {
        let n = width * height;
        let mut cells: Vec<T> = Vec::new();
        let mut k: usize = 0;
        while k < n
            invariant
                k <= n,
                cells@.len() == k,
                forall|i: int| 0 <= i < k ==> cells@[i] == fill,
            decreases n - k,
        {
            cells.push(fill);
            k = k + 1;
        }
        let g = Grid { width, height, cells };
        proof {
            assert(g@ =~= Seq::new((width * height) as nat, |i: int| fill));
        }
        g
    }

    /// The cell at linear index `i`. Callers validate `i` beforehand, most
    /// often through [`Grid::get_index`].
    pub fn get(&self, i: usize) -> (v: T)
        requires
            i < self@.len(),
        ensures
            v == self@[i as int],
    {
        self.cells[i]
    }

    /// Overwrites the cell at linear index `i`. Callers validate `i`
    /// beforehand, most often through [`Grid::get_index`].
    pub fn set(&mut self, i: usize, v: T)
        requires
            i < old(self)@.len(),
        ensures
            final(self)@ == old(self)@.update(i as int, v),
            final(self).width() == old(self).width(),
            final(self).height() == old(self).height(),
            old(self).wf() ==> final(self).wf(),
    {
        self.cells.set(i, v);
    }
}

impl<T: Copy> Clone for Grid<T> {
    /// A deep, independent copy: same dimensions, same cells; mutating the
    /// copy never affects the original.
    fn clone(&self) -> (g: Self)
        ensures
            g.width() == self.width(),
            g.height() == self.height(),
            g@ == self@,
            self.wf() ==> g.wf(),
    {
        let n = self.cells.len();
        let mut cells: Vec<T> = Vec::new();
        let mut k: usize = 0;
        while k < n
            invariant
                k <= n,
                n == self.cells@.len(),
                cells@.len() == k,
                forall|i: int| 0 <= i < k ==> cells@[i] == self.cells@[i],
            decreases n - k,
        {
            cells.push(self.cells[k]);
            k = k + 1;
        }
        let g = Grid { width: self.width, height: self.height, cells };
        proof {
            assert(g@ =~= self@);
        }
        g
    }
}

} // verus!
