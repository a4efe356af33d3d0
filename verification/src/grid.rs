//! The field of cells: one resting height per cell, stored row by row, and
//! the mapping between a cell's coordinates and its place in that storage.

use vstd::prelude::*;
use crate::coordinate::Coordinate;
use crate::level::FULL;

verus! {

/// `(x, y)` lies inside a field of `width` by `height` cells.
pub open spec fn in_bounds(width: nat, height: nat, x: int, y: int) -> bool {
    0 <= x < width && 0 <= y < height
}

/// The place of cell `(x, y)` in row-major storage.
pub open spec fn index_of(width: nat, x: int, y: int) -> int {
    x + y * width
}

/// The cell stored at place `i`.
pub open spec fn coordinate_of(width: nat, i: int) -> Coordinate {
    Coordinate { x: (i % (width as int)) as usize, y: (i / (width as int)) as usize }
}

/// Inside the field, the place of a cell is a place of the storage, and the
/// cell stored there is that cell.
pub proof fn lemma_index_round_trip(width: nat, height: nat, x: int, y: int)
    requires
        in_bounds(width, height, x, y),
    ensures
        0 <= index_of(width, x, y) < width * height,
        index_of(width, x, y) % (width as int) == x,
        index_of(width, x, y) / (width as int) == y,
{
    let w = width as int;
    let h = height as int;
    assert(x + y * w < w * h) by (nonlinear_arith)
        requires
            0 <= x < w,
            0 <= y < h,
    ;
    assert(0 <= y * w) by (nonlinear_arith)
        requires
            0 <= y,
            0 < w,
    ;
    vstd::arithmetic::div_mod::lemma_fundamental_div_mod_converse(x + y * w, w, y, x);
}

/// Every place of the storage holds a cell inside the field, and the place of
/// that cell is the place it is stored at.
pub proof fn lemma_coordinate_round_trip(width: nat, height: nat, i: int)
    requires
        0 <= i < width * height,
    ensures
        width > 0,
        in_bounds(width, height, i % (width as int), i / (width as int)),
        index_of(width, i % (width as int), i / (width as int)) == i,
{
    let w = width as int;
    let h = height as int;
    assert(w > 0) by (nonlinear_arith)
        requires
            0 <= i < w * h,
            0 <= w,
            0 <= h,
    ;
    vstd::arithmetic::div_mod::lemma_fundamental_div_mod(i, w);
    vstd::arithmetic::div_mod::lemma_mod_bound(i, w);
    vstd::arithmetic::div_mod::lemma_div_pos_is_pos(i, w);
    let q = i / w;
    let r = i % w;
    assert(q < h) by (nonlinear_arith)
        requires
            i == w * q + r,
            0 <= r,
            i < w * h,
            0 < w,
    ;
    assert(r + q * w == i) by (nonlinear_arith)
        requires
            i == w * q + r,
    ;
}

/// The resting height of one cell, from 0 to [`FULL`].
#[derive(Debug, Clone, Copy, PartialEq, Eq, Structural)]
pub struct Droplet {
    pub height: u32,
}

/// A field of `width` by `height` droplets.
#[derive(Debug)]
pub struct Grid {
    width: usize,
    height: usize,
    droplets: Vec<Droplet>,
}

impl View for Grid {
    type V = Seq<u32>;

    /// The resting heights, row by row.
    closed spec fn view(&self) -> Seq<u32> {
        self.droplets@.map_values(|d: Droplet| d.height)
    }
}

impl Grid {
    /// The number of columns.
    pub closed spec fn cols(&self) -> nat {
        self.width as nat
    }

    /// The number of rows.
    pub closed spec fn rows(&self) -> nat {
        self.height as nat
    }

    /// The cells can be counted, there is one height for every cell, and none
    /// is above [`FULL`].
    pub open spec fn wf(&self) -> bool {
        &&& self.cols() * self.rows() <= usize::MAX
        &&& self@.len() == self.cols() * self.rows()
        &&& forall|i: int| 0 <= i < self@.len() ==> #[trigger] self@[i] <= FULL
    }

    /// The place of cell `(x, y)`, if the cell lies inside the field.
    pub open spec fn to_index_spec(&self, x: usize, y: usize) -> Option<usize> {
        if in_bounds(self.cols(), self.rows(), x as int, y as int) {
            Some(index_of(self.cols(), x as int, y as int) as usize)
        } else {
            None
        }
    }

    /// The cell at place `i`, if the storage has such a place.
    pub open spec fn to_coordinate_spec(&self, i: usize) -> Option<Coordinate> {
        if i < self.cols() * self.rows() {
            Some(coordinate_of(self.cols(), i as int))
        } else {
            None
        }
    }

    /// From a cell inside the field to its place and back gives the cell.
    pub proof fn lemma_to_index_to_coordinate(&self, x: usize, y: usize)
        requires
            self.wf(),
            in_bounds(self.cols(), self.rows(), x as int, y as int),
        ensures
            self.to_index_spec(x, y) is Some,
            self.to_coordinate_spec(self.to_index_spec(x, y)->0) == Some(Coordinate { x, y }),
    {
        lemma_index_round_trip(self.cols(), self.rows(), x as int, y as int);
    }

    /// From a place of the storage to its cell and back gives the place.
    pub proof fn lemma_to_coordinate_to_index(&self, i: usize)
        requires
            self.wf(),
            i < self.cols() * self.rows(),
        ensures
            self.to_coordinate_spec(i) is Some,
            self.to_index_spec(self.to_coordinate_spec(i)->0.x, self.to_coordinate_spec(i)->0.y)
                == Some(i),
    {
        lemma_coordinate_round_trip(self.cols(), self.rows(), i as int);
    }

    /// A field in which every droplet rests at `level`; nothing if the number
    /// of cells is beyond what can be counted, or `level` is above [`FULL`].
    pub fn new(width: usize, height: usize, level: u32) -> (grid: Option<Grid>)
        ensures
            grid is Some <==> width * height <= usize::MAX && level <= FULL,
            grid matches Some(g) ==> {
                &&& g.wf()
                &&& g.cols() == width
                &&& g.rows() == height
                &&& g@ == Seq::new((width * height) as nat, |i: int| level)
            },
    {
        if level > FULL {
            return None;
        }
        match width.checked_mul(height) {
            None => None,
            Some(n) => {
                let mut droplets: Vec<Droplet> = Vec::new();
                let mut i: usize = 0;
                while i < n
                    invariant
                        i <= n,
                        droplets@ == Seq::new(i as nat, |k: int| Droplet { height: level }),
                    decreases n - i,
                {
                    droplets.push(Droplet { height: level });
                    assert(droplets@ =~= Seq::new((i + 1) as nat, |k: int| Droplet { height: level }));
                    i += 1;
                }
                let grid = Grid { width, height, droplets };
                assert(grid@ =~= Seq::new((width * height) as nat, |i: int| level));
                Some(grid)
            },
        }
    }

    pub fn width(&self) -> (w: usize)
        ensures
            w == self.cols(),
    {
        self.width
    }

    pub fn height(&self) -> (h: usize)
        ensures
            h == self.rows(),
    {
        self.height
    }

    /// The number of cells.
    pub fn len(&self) -> (n: usize)
        ensures
            n == self@.len(),
    {
        proof {
            assert(self@.len() == self.droplets@.len());
        }
        self.droplets.len()
    }

    pub fn in_bounds(&self, x: usize, y: usize) -> (b: bool)
        ensures
            b == in_bounds(self.cols(), self.rows(), x as int, y as int),
    {
        x < self.width && y < self.height
    }

    /// The place of cell `(x, y)` in the storage, or nothing if the cell lies
    /// outside the field.
    pub fn to_index(&self, x: usize, y: usize) -> (i: Option<usize>)
        requires
            self.wf(),
        ensures
            i == self.to_index_spec(x, y),
            i matches Some(k) ==> k < self@.len(),
    {
        if self.in_bounds(x, y) {
            proof {
                lemma_index_round_trip(self.cols(), self.rows(), x as int, y as int);
                assert(0 <= y * self.width) by (nonlinear_arith);
            }
            Some(x + y * self.width)
        } else {
            None
        }
    }

    /// The cell stored at place `i`, or nothing if the storage has no such
    /// place.
    pub fn to_coordinate(&self, i: usize) -> (c: Option<Coordinate>)
        requires
            self.wf(),
        ensures
            c == self.to_coordinate_spec(i),
            c matches Some(k) ==> in_bounds(self.cols(), self.rows(), k.x as int, k.y as int),
    {
        if i >= self.len() {
            None
        } else {
            proof {
                lemma_coordinate_round_trip(self.cols(), self.rows(), i as int);
            }
            let x: usize = i % self.width;
            let y: usize = i / self.width;
            Some(Coordinate::new(x, y))
        }
    }

    /// The resting height at place `i`.
    pub fn level(&self, i: usize) -> (level: u32)
        requires
            i < self@.len(),
        ensures
            level == self@[i as int],
    {
        self.droplets[i].height
    }

    /// Lets the droplet at place `i` rest at `level`.
    pub fn set_level(&mut self, i: usize, level: u32)
        requires
            old(self).wf(),
            i < old(self)@.len(),
            level <= FULL,
        ensures
            final(self).wf(),
            final(self).cols() == old(self).cols(),
            final(self).rows() == old(self).rows(),
            final(self)@ == old(self)@.update(i as int, level),
    {
        self.droplets[i] = Droplet { height: level };
        assert(self@ =~= old(self)@.update(i as int, level));
    }
}

} // verus!
