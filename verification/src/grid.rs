//! The tile grid: a square array of tile identifiers.
//!
//! Tile `0` is empty and traversable; tiles `1..=5` are wall materials. A
//! well-formed grid is bordered entirely by non-zero tiles, so a ray walked
//! through it always terminates on a wall. One designated interior cell may
//! blink between a wall id and empty, driven by a clock value supplied by the
//! caller.

use vstd::prelude::*;

verus! {

/// Largest tile identifier with a wall material assigned to it.
pub const MAX_TILE: u8 = 5;

/// Largest accepted side length of a grid.
pub const MAX_SIDE: usize = 256;

/// Why a grid description was rejected at construction time.
#[derive(Clone, Copy, Debug, PartialEq, Eq, Structural)]
pub enum GridError {
    /// The side length is below 3, so there is no interior at all.
    SideTooSmall,
    /// The side length exceeds `MAX_SIDE`.
    SideTooLarge,
    /// The cell vector does not hold exactly `side * side` entries.
    WrongCellCount,
    /// Some cell holds an identifier above `MAX_TILE`.
    BadTile,
    /// Some border cell is empty, so a ray could escape the grid.
    OpenBorder,
}

/// A square grid of tile identifiers, row-major.
#[derive(Debug)]
pub struct Grid {
    pub side: usize,
    pub cells: Vec<u8>,
}

impl Grid {
    /// The tile identifier stored at column `x`, row `y`.
    pub open spec fn cell(self, x: int, y: int) -> u8 {
        self.cells[y * self.side + x]
    }

    pub open spec fn in_bounds(self, x: int, y: int) -> bool {
        0 <= x < self.side && 0 <= y < self.side
    }

    /// Strictly inside: not on the border ring.
    pub open spec fn interior(self, x: int, y: int) -> bool {
        1 <= x < self.side - 1 && 1 <= y < self.side - 1
    }

    /// Every border cell holds a wall, so grid traversal cannot escape.
    pub open spec fn border_closed(self) -> bool {
        forall|x: int, y: int|
            self.in_bounds(x, y) && !self.interior(x, y) ==> self.cell(x, y) > 0
    }

    /// Every cell holds a recognized tile identifier.
    pub open spec fn tiles_valid(self) -> bool {
        forall|i: int| 0 <= i < self.cells.len() ==> self.cells[i] <= MAX_TILE
    }

    pub open spec fn wf(self) -> bool {
        &&& 3 <= self.side <= MAX_SIDE
        &&& self.cells.len() == self.side * self.side
        &&& self.tiles_valid()
        &&& self.border_closed()
    }

    /// Build a grid after validating every structural invariant; the error
    /// names the first failed check in the order side, cell count, tile
    /// values, border.
    pub fn new(side: usize, cells: Vec<u8>) -> (r: Result<Grid, GridError>)
        ensures
            r is Ok <==> ({
                let g = Grid { side, cells };
                g.wf()
            }),
            r is Ok ==> r->Ok_0 == (Grid { side, cells }),
            r == Err::<Grid, GridError>(GridError::SideTooSmall) <==> side < 3,
            r == Err::<Grid, GridError>(GridError::SideTooLarge) <==> side >= 3 && side > MAX_SIDE,
            r == Err::<Grid, GridError>(GridError::WrongCellCount) <==> (3 <= side <= MAX_SIDE
                && cells.len() != side * side),
            r == Err::<Grid, GridError>(GridError::BadTile) <==> (3 <= side <= MAX_SIDE
                && cells.len() == side * side && !(Grid { side, cells }).tiles_valid()),
            r == Err::<Grid, GridError>(GridError::OpenBorder) <==> (3 <= side <= MAX_SIDE
                && cells.len() == side * side && (Grid { side, cells }).tiles_valid()
                && !(Grid { side, cells }).border_closed()),
    {
        if side < 3 {
            return Err(GridError::SideTooSmall);
        }
        if side > MAX_SIDE {
            return Err(GridError::SideTooLarge);
        }
        proof {
            assert(side * side <= 256 * 256) by (nonlinear_arith)
                requires
                    side <= 256,
            ;
        }
        if cells.len() != side * side {
            return Err(GridError::WrongCellCount);
        }
        let g = Grid { side, cells };
        let mut i: usize = 0;
        while i < g.cells.len()
            invariant
                g == (Grid { side, cells }),
                3 <= side <= MAX_SIDE,
                g.cells.len() == side * side,
                forall|j: int| 0 <= j < i ==> g.cells[j] <= MAX_TILE,
                i <= g.cells.len(),
            decreases g.cells.len() - i,
        {
            if g.cells[i] > MAX_TILE {
                return Err(GridError::BadTile);
            }
            i += 1;
        }
        let mut y: usize = 0;
        while y < side
            invariant
                y <= side,
                g == (Grid { side, cells }),
                3 <= side <= MAX_SIDE,
                g.cells.len() == side * side,
                g.tiles_valid(),
                forall|xx: int, yy: int|
                    0 <= yy < y && 0 <= xx < side && !g.interior(xx, yy) ==> g.cell(xx, yy) > 0,
            decreases side - y,
        {
            let mut x: usize = 0;
            while x < side
                invariant
                    x <= side,
                    y < side,
                    g == (Grid { side, cells }),
                    3 <= side <= MAX_SIDE,
                    g.cells.len() == side * side,
                    g.tiles_valid(),
                    forall|xx: int, yy: int|
                        0 <= yy < y && 0 <= xx < side && !g.interior(xx, yy) ==> g.cell(xx, yy)
                            > 0,
                    forall|xx: int| 0 <= xx < x && !g.interior(xx, y as int) ==> g.cell(
                        xx,
                        y as int,
                    ) > 0,
                decreases side - x,
            {
                let border = x == 0 || y == 0 || x == side - 1 || y == side - 1;
                if border {
                    proof {
                        lemma_cell_index_in_range(side as int, x as int, y as int);
                    }
                    if g.cells[y * side + x] == 0 {
                        proof {
                            assert(g.cell(x as int, y as int) == 0);
                            assert(!g.interior(x as int, y as int));
                            assert(!g.border_closed());
                        }
                        return Err(GridError::OpenBorder);
                    }
                }
                x += 1;
            }
            y += 1;
        }
        Ok(g)
    }

    /// Read one cell.
    pub fn at(&self, x: usize, y: usize) -> (r: u8)
        requires
            self.cells.len() == self.side * self.side,
            x < self.side,
            y < self.side,
        ensures
            r == self.cell(x as int, y as int),
    {
        proof {
            lemma_cell_index_in_range(self.side as int, x as int, y as int);
        }
        self.cells[y * self.side + x]
    }

    /// Overwrite one interior cell with a recognized tile; every invariant of
    /// the grid survives, and no other cell moves.
    pub fn set_cell(&mut self, x: usize, y: usize, v: u8)
        requires
            old(self).wf(),
            old(self).interior(x as int, y as int),
            v <= MAX_TILE,
        ensures
            final(self).wf(),
            final(self).side == old(self).side,
            final(self).cell(x as int, y as int) == v,
            forall|xx: int, yy: int|
                old(self).in_bounds(xx, yy) && (xx != x || yy != y) ==> final(self).cell(xx, yy)
                    == old(self).cell(xx, yy),
    {
        proof {
            lemma_cell_index_in_range(self.side as int, x as int, y as int);
        }
        let i = y * self.side + x;
        self.cells[i] = v;
        proof {
            let s = self.side as int;
            let g0 = *old(self);
            let g1 = *self;
            assert forall|xx: int, yy: int|
                g0.in_bounds(xx, yy) && (xx != x || yy != y) implies g1.cell(xx, yy) == g0.cell(
                xx,
                yy,
            ) by {
                lemma_cell_index_in_range(s, xx, yy);
                lemma_cell_index_injective(s, xx, yy, x as int, y as int);
            }
            assert forall|xx: int, yy: int|
                g1.in_bounds(xx, yy) && !g1.interior(xx, yy) implies g1.cell(xx, yy) > 0 by {
                lemma_cell_index_in_range(s, xx, yy);
                lemma_cell_index_injective(s, xx, yy, x as int, y as int);
                assert(g0.in_bounds(xx, yy));
                assert(!g0.interior(xx, yy));
                assert(g0.cell(xx, yy) > 0);
            }
        }
    }

    /// The blinking cell rule: an interior cell is forced empty while the
    /// clock sits in the open half of each second, and forced back to `wall`
    /// otherwise. Re-evaluated from the clock alone, so no toggle can be
    /// missed, and the cell never holds a third value.
    pub fn apply_toggle(&mut self, x: usize, y: usize, wall: u8, now_ms: u64)
        requires
            old(self).wf(),
            old(self).interior(x as int, y as int),
            1 <= wall <= MAX_TILE,
        ensures
            final(self).wf(),
            final(self).side == old(self).side,
            final(self).cell(x as int, y as int) == (if toggle_open(now_ms) {
                0u8
            } else {
                wall
            }),
            forall|xx: int, yy: int|
                old(self).in_bounds(xx, yy) && (xx != x || yy != y) ==> final(self).cell(xx, yy)
                    == old(self).cell(xx, yy),
    {
        if 0 < now_ms % 1000 && now_ms % 1000 < 500 {
            self.set_cell(x, y, 0);
        } else {
            self.set_cell(x, y, wall);
        }
    }
}

/// Whether the blinking cell is open at clock time `now_ms` (milliseconds):
/// open during the first half of each second, excluding the exact tick.
pub open spec fn toggle_open(now_ms: u64) -> bool {
    0 < now_ms % 1000 < 500
}

/// Row-major cell indices stay inside a `side * side` vector.
pub proof fn lemma_cell_index_in_range(side: int, x: int, y: int)
    by (nonlinear_arith)
    requires
        0 <= x < side,
        0 <= y < side,
    ensures
        0 <= y * side + x < side * side,
{
}

/// Distinct in-bounds coordinates get distinct row-major indices.
pub proof fn lemma_cell_index_injective(side: int, x1: int, y1: int, x2: int, y2: int)
    by (nonlinear_arith)
    requires
        0 <= x1 < side,
        0 <= y1 < side,
        0 <= x2 < side,
        0 <= y2 < side,
        x1 != x2 || y1 != y2,
    ensures
        y1 * side + x1 != y2 * side + x2,
{
}

} // verus!
