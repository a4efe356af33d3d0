//! The cells that a touch reaches: a square whose top-left corner is the
//! touch's anchor, cut off at the edges of the field.

use vstd::prelude::*;
use vstd::seq_lib::lemma_seq_contains_after_push;
use crate::coordinate::Coordinate;
use crate::grid::in_bounds;

verus! {

/// `c` lies in the square of side `side` whose top-left corner is `anchor`.
pub open spec fn in_epicenter(anchor: Coordinate, side: usize, c: Coordinate) -> bool {
    anchor.x <= c.x < anchor.x + side && anchor.y <= c.y < anchor.y + side
}

/// The cells of a field of `width` by `height` that a touch at `anchor` of
/// width `side` reaches.
pub open spec fn epicenter_set(width: usize, height: usize, anchor: Coordinate, side: usize) -> Set<
    Coordinate,
> {
    Set::new(
        |c: Coordinate|
            in_epicenter(anchor, side, c) && in_bounds(
                width as nat,
                height as nat,
                c.x as int,
                c.y as int,
            ),
    )
}

/// How many of the `side` positions from `start` on lie below `limit`.
pub open spec fn clipped(start: usize, side: usize, limit: usize) -> nat {
    if start >= limit {
        0
    } else if start + side >= limit {
        (limit - start) as nat
    } else {
        side as nat
    }
}

/// `a` comes before `b` when the cells are read row by row.
pub open spec fn row_major_before(a: Coordinate, b: Coordinate) -> bool {
    a.y < b.y || (a.y == b.y && a.x < b.x)
}

/// The cells that a touch at `anchor` of width `side` reaches in a field of
/// `width` by `height`: each of them once, row by row, and no cell outside
/// the field.
pub fn epicenter(width: usize, height: usize, anchor: Coordinate, side: usize) -> (cells: Vec<
    Coordinate,
>)
    requires
        width * height <= usize::MAX,
    ensures
        forall|c: Coordinate|
            cells@.contains(c) <==> in_epicenter(anchor, side, c) && in_bounds(
                width as nat,
                height as nat,
                c.x as int,
                c.y as int,
            ),
        cells@.to_set() == epicenter_set(width, height, anchor, side),
        forall|i: int, j: int|
            0 <= i < j < cells@.len() ==> row_major_before(cells@[i], cells@[j]),
        cells@.no_duplicates(),
        cells@.len() == clipped(anchor.x, side, width) * clipped(anchor.y, side, height),
        epicenter_set(width, height, anchor, side).len() == cells@.len(),
        anchor.x + side <= width && anchor.y + side <= height ==> cells@.len() == side * side,
{
    let mut cells: Vec<Coordinate> = Vec::new();
    if anchor.x >= width || anchor.y >= height {
        assert(clipped(anchor.x, side, width) * clipped(anchor.y, side, height) == 0)
            by (nonlinear_arith)
            requires
                clipped(anchor.x, side, width) == 0 || clipped(anchor.y, side, height) == 0,
        ;
        assert(cells@.to_set() =~= epicenter_set(width, height, anchor, side));
        proof {
            cells@.unique_seq_to_set();
        }
        return cells;
    }
    let x_end: usize = if side >= width - anchor.x {
        width
    } else {
        anchor.x + side
    };
    let y_end: usize = if side >= height - anchor.y {
        height
    } else {
        anchor.y + side
    };
    let ghost across: int = x_end - anchor.x;
    assert(across == clipped(anchor.x, side, width));
    assert(y_end - anchor.y == clipped(anchor.y, side, height));
    let mut y: usize = anchor.y;
    assert((y - anchor.y) * across == 0) by (nonlinear_arith)
        requires
            y == anchor.y,
    ;
    while y < y_end
        invariant
            anchor.x <= x_end,
            across == x_end - anchor.x,
            anchor.y <= y <= y_end,
            cells@.len() == (y - anchor.y) * across,
            forall|c: Coordinate|
                cells@.contains(c) <==> (anchor.x <= c.x < x_end && anchor.y <= c.y < y),
            forall|i: int, j: int|
                0 <= i < j < cells@.len() ==> row_major_before(cells@[i], cells@[j]),
        decreases y_end - y,
    {
        let mut x: usize = anchor.x;
        while x < x_end
            invariant
                anchor.x <= x <= x_end,
                across == x_end - anchor.x,
                anchor.y <= y < y_end,
                cells@.len() == (y - anchor.y) * across + (x - anchor.x),
                forall|c: Coordinate|
                    cells@.contains(c) <==> ((anchor.x <= c.x < x_end && anchor.y <= c.y < y) || (
                    c.y == y && anchor.x <= c.x < x)),
                forall|i: int, j: int|
                    0 <= i < j < cells@.len() ==> row_major_before(cells@[i], cells@[j]),
            decreases x_end - x,
        {
            let ghost before = cells@;
            let cell = Coordinate::new(x, y);
            cells.push(cell);
            proof {
                assert forall|c: Coordinate|
                    cells@.contains(c) <==> ((anchor.x <= c.x < x_end && anchor.y <= c.y < y) || (
                    c.y == y && anchor.x <= c.x < x + 1)) by {
                    lemma_seq_contains_after_push(before, cell, c);
                }
                assert forall|i: int, j: int| 0 <= i < j < cells@.len() implies row_major_before(
                    cells@[i],
                    cells@[j],
                ) by {
                    if j == before.len() {
                        assert(before.contains(before[i]));
                    }
                }
            }
            x += 1;
        }
        proof {
            assert((y + 1 - anchor.y) * across == (y - anchor.y) * across + across)
                by (nonlinear_arith);
        }
        y += 1;
    }
    proof {
        assert(cells@.to_set() =~= epicenter_set(width, height, anchor, side));
        assert forall|i: int, j: int|
            0 <= i < cells@.len() && 0 <= j < cells@.len() && i != j implies cells@[i]
            != cells@[j] by {
            if i < j {
                assert(row_major_before(cells@[i], cells@[j]));
            } else {
                assert(row_major_before(cells@[j], cells@[i]));
            }
        }
        assert((y_end - anchor.y) * across == across * (y_end - anchor.y)) by (nonlinear_arith);
        cells@.unique_seq_to_set();
    }
    cells
}

} // verus!
