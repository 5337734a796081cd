//! The grid ray caster.
//!
//! A ray starts at a rational origin strictly inside the grid interior and
//! walks from grid-line crossing to grid-line crossing, always advancing the
//! axis whose next crossing is nearer along the ray (ties advance the Y axis),
//! until it enters a non-empty cell. The returned depth is the ray parameter
//! of the crossing that entered the hit cell — the distance measured
//! perpendicular to the camera plane, which avoids fisheye distortion — as an
//! exact fraction.
//!
//! All arithmetic is exact. With the origin written `(xn/q, yn/q)` and an
//! integer direction `(dx, dy)`, the next crossing on the X axis lies at ray
//! parameter `nx / (q·|dx|)` for an integer `nx`, so the "which axis is
//! nearer" comparison is an integer cross-multiplication, and the tie-break
//! rule is decided exactly rather than by float rounding.

use vstd::prelude::*;
use vstd::arithmetic::mul::lemma_mul_upper_bound;
use crate::frac::{Frac, lemma_i64_mul_fits_i128};
use crate::frac::Vec2q;
use crate::grid::{Grid, MAX_TILE, lemma_cell_index_in_range};

verus! {

/// Upper bound on the shared denominator of a ray origin.
pub const MAX_POS_DEN: i64 = 4096;

/// Upper bound on the magnitude of an integer ray direction component.
pub const MAX_DIR: i64 = 0x400_0000;

pub open spec fn sign_of(v: int) -> int {
    if v > 0 {
        1
    } else if v < 0 {
        -1
    } else {
        0
    }
}

pub open spec fn abs_of(v: int) -> int {
    if v >= 0 {
        v
    } else {
        -v
    }
}

/// One traversal state: the current cell and, per axis, the numerator of the
/// ray parameter of the next grid-line crossing on that axis over the fixed
/// denominator `q·|d|` of that axis. `axis_y` records which axis the most
/// recent step advanced.
pub ghost struct DdaState {
    pub cx: int,
    pub cy: int,
    pub nx: int,
    pub ny: int,
    pub axis_y: bool,
}

/// Advance whichever axis has the strictly nearer next crossing
/// (`nx/(q·adx) < ny/(q·ady)`, compared by cross-multiplication); a zero
/// direction component means its axis is never the nearer one, and ties
/// advance the Y axis.
pub open spec fn dda_step(s: DdaState, q: int, sx: int, sy: int, adx: int, ady: int) -> DdaState {
    if sx != 0 && (sy == 0 || s.nx * ady < s.ny * adx) {
        DdaState { cx: s.cx + sx, nx: s.nx + q, axis_y: false, ..s }
    } else {
        DdaState { cy: s.cy + sy, ny: s.ny + q, axis_y: true, ..s }
    }
}

/// The state after `k` steps of the traversal.
pub open spec fn dda_iter(
    s0: DdaState,
    q: int,
    sx: int,
    sy: int,
    adx: int,
    ady: int,
    k: nat,
) -> DdaState
    decreases k,
{
    if k == 0 {
        s0
    } else {
        dda_step(dda_iter(s0, q, sx, sy, adx, ady, (k - 1) as nat), q, sx, sy, adx, ady)
    }
}

/// The traversal start: the origin's cell and, per axis, the numerator of the
/// ray parameter of the first grid-line crossing, computed from the origin's
/// fractional offset inside its cell and the sign of the direction.
pub open spec fn dda_init(ox: int, oy: int, q: int, dx: int, dy: int) -> DdaState {
    let cx = ox / q;
    let cy = oy / q;
    DdaState {
        cx: cx,
        cy: cy,
        nx: if dx > 0 {
            (cx + 1) * q - ox
        } else if dx < 0 {
            ox - cx * q
        } else {
            0
        },
        ny: if dy > 0 {
            (cy + 1) * q - oy
        } else if dy < 0 {
            oy - cy * q
        } else {
            0
        },
        axis_y: false,
    }
}

/// Every precondition of a cast: a well-formed grid, an origin strictly
/// inside the interior, a non-zero direction, and machine-size bounds.
pub open spec fn cast_ok(grid: Grid, pos: Vec2q, dir_x: int, dir_y: int) -> bool {
    &&& grid.wf()
    &&& pos.wf()
    &&& pos.den <= MAX_POS_DEN
    &&& pos.den < pos.xn < (grid.side - 1) * pos.den
    &&& pos.den < pos.yn < (grid.side - 1) * pos.den
    &&& !(dir_x == 0 && dir_y == 0)
    &&& abs_of(dir_x) <= MAX_DIR
    &&& abs_of(dir_y) <= MAX_DIR
}

/// The result of a cast: the wall tile struck, the cell it sits in, whether
/// the final step crossed a Y grid line, and the perpendicular depth.
#[derive(Clone, Copy, Debug)]
pub struct CastHit {
    pub tile: u8,
    pub cell_x: usize,
    pub cell_y: usize,
    pub side_y: bool,
    pub depth: Frac,
}

/// The cell entered by the `j`-th traversal step is in bounds and empty.
pub open spec fn step_lands_empty(
    grid: Grid,
    s0: DdaState,
    q: int,
    sx: int,
    sy: int,
    adx: int,
    ady: int,
    j: nat,
) -> bool {
    let sj = dda_iter(s0, q, sx, sy, adx, ady, j);
    grid.in_bounds(sj.cx, sj.cy) && grid.cell(sj.cx, sj.cy) == 0
}

/// `r` is what `k` traversal steps from `pos` along `(dir_x, dir_y)` produce:
/// the cells entered by the first `k - 1` steps are all empty, the `k`-th is
/// the first non-empty one, and the depth is the ray parameter of the final
/// crossing (the accumulated side distance of the stepped axis minus its one
/// over-step).
pub open spec fn hits_after(
    grid: Grid,
    pos: Vec2q,
    dir_x: int,
    dir_y: int,
    k: nat,
    r: CastHit,
) -> bool {
    let q = pos.den as int;
    let sx = sign_of(dir_x);
    let sy = sign_of(dir_y);
    let adx = abs_of(dir_x);
    let ady = abs_of(dir_y);
    let s0 = dda_init(pos.xn as int, pos.yn as int, q, dir_x, dir_y);
    let s = dda_iter(s0, q, sx, sy, adx, ady, k);
    &&& 1 <= k
    &&& forall|j: nat| 1 <= j < k ==> #[trigger] step_lands_empty(grid, s0, q, sx, sy, adx, ady, j)
    &&& grid.in_bounds(s.cx, s.cy)
    &&& grid.cell(s.cx, s.cy) > 0
    &&& r.cell_x == s.cx
    &&& r.cell_y == s.cy
    &&& r.tile == grid.cell(s.cx, s.cy)
    &&& r.side_y == s.axis_y
    &&& r.depth.num == (if s.axis_y {
        s.ny - q
    } else {
        s.nx - q
    })
    &&& r.depth.den == q * (if s.axis_y {
        ady
    } else {
        adx
    })
}

/// Remaining cells the traversal can still cross on each axis before the
/// border; every step shrinks it by one.
pub open spec fn dda_measure(side: int, cx: int, cy: int, sx: int, sy: int) -> int {
    (if sx > 0 {
        side - 1 - cx
    } else if sx < 0 {
        cx
    } else {
        0
    }) + (if sy > 0 {
        side - 1 - cy
    } else if sy < 0 {
        cy
    } else {
        0
    })
}

/// Cast one ray through the grid and return the first wall it strikes
/// together with the exact perpendicular depth of the hit.
///
/// The origin is `(pos.xn / pos.den, pos.yn / pos.den)` in grid units; the
/// direction `(dir_x, dir_y)` is an integer vector whose scale only scales
/// the returned depth (the crossing order is scale-free). The contract pins
/// the result to the traversal model: some step count `k` hits, every earlier
/// step landed on an empty cell, and the depth places the origin plus
/// `depth · dir` exactly on the grid line entering the hit cell.
pub fn single_cast(grid: &Grid, pos: Vec2q, dir_x: i64, dir_y: i64) -> (r: CastHit)
    requires
        cast_ok(*grid, pos, dir_x as int, dir_y as int),
    ensures
        exists|k: nat| hits_after(*grid, pos, dir_x as int, dir_y as int, k, r),
        0 < r.tile <= MAX_TILE,
        grid.in_bounds(r.cell_x as int, r.cell_y as int),
        r.tile == grid.cell(r.cell_x as int, r.cell_y as int),
        r.depth.wf(),
        0 <= r.depth.num <= grid.side * pos.den,
        !r.side_y ==> {
            &&& dir_x != 0
            &&& r.depth.den == pos.den * abs_of(dir_x as int)
            &&& (dir_x > 0 ==> pos.xn + r.depth.num == r.cell_x * pos.den)
            &&& (dir_x < 0 ==> pos.xn - r.depth.num == (r.cell_x + 1) * pos.den)
        },
        r.side_y ==> {
            &&& dir_y != 0
            &&& r.depth.den == pos.den * abs_of(dir_y as int)
            &&& (dir_y > 0 ==> pos.yn + r.depth.num == r.cell_y * pos.den)
            &&& (dir_y < 0 ==> pos.yn - r.depth.num == (r.cell_y + 1) * pos.den)
        },
{
    let q: i64 = pos.den;
    let ox: i64 = pos.xn;
    let oy: i64 = pos.yn;
    let side = grid.side;
    let sx: i64 = if dir_x > 0 {
        1
    } else if dir_x < 0 {
        -1
    } else {
        0
    };
    let sy: i64 = if dir_y > 0 {
        1
    } else if dir_y < 0 {
        -1
    } else {
        0
    };
    let adx: i64 = if dir_x >= 0 {
        dir_x
    } else {
        -dir_x
    };
    let ady: i64 = if dir_y >= 0 {
        dir_y
    } else {
        -dir_y
    };

    let cx0: u64 = (ox as u64) / (q as u64);
    let cy0: u64 = (oy as u64) / (q as u64);
    proof {
        lemma_div_in_interior(ox as int, q as int, side as int);
        lemma_div_in_interior(oy as int, q as int, side as int);
    }
    let mut cx: usize = cx0 as usize;
    let mut cy: usize = cy0 as usize;

    proof {
        lemma_mul_upper_bound(cx as int + 1, side as int - 1, q as int, MAX_POS_DEN as int);
        lemma_mul_upper_bound(cy as int + 1, side as int - 1, q as int, MAX_POS_DEN as int);
    }
    let mut nx: i64 = if dir_x > 0 {
        (cx as i64 + 1) * q - ox
    } else if dir_x < 0 {
        ox - cx as i64 * q
    } else {
        0
    };
    let mut ny: i64 = if dir_y > 0 {
        (cy as i64 + 1) * q - oy
    } else if dir_y < 0 {
        oy - cy as i64 * q
    } else {
        0
    };

    let ghost s0 = dda_init(ox as int, oy as int, q as int, dir_x as int, dir_y as int);
    let ghost mut k: nat = 0;
    let ghost mut ay: bool = false;

    proof {
        assert(dda_iter(s0, q as int, sx as int, sy as int, adx as int, ady as int, 0) == s0);
    }

    loop
        invariant
            cast_ok(*grid, pos, dir_x as int, dir_y as int),
            q == pos.den && ox == pos.xn && oy == pos.yn && side == grid.side,
            sx == sign_of(dir_x as int),
            sy == sign_of(dir_y as int),
            adx == abs_of(dir_x as int),
            ady == abs_of(dir_y as int),
            s0 == dda_init(ox as int, oy as int, q as int, dir_x as int, dir_y as int),
            dda_iter(s0, q as int, sx as int, sy as int, adx as int, ady as int, k) == (DdaState {
                cx: cx as int,
                cy: cy as int,
                nx: nx as int,
                ny: ny as int,
                axis_y: ay,
            }),
            grid.interior(cx as int, cy as int),
            nx >= 0,
            ny >= 0,
            sx == 1 ==> ox + nx == (cx + 1) * q,
            sx == -1 ==> ox - nx == cx * q,
            sx == 0 ==> nx == 0,
            sy == 1 ==> oy + ny == (cy + 1) * q,
            sy == -1 ==> oy - ny == cy * q,
            sy == 0 ==> ny == 0,
            forall|j: nat|
                1 <= j <= k ==> #[trigger] step_lands_empty(
                    *grid,
                    s0,
                    q as int,
                    sx as int,
                    sy as int,
                    adx as int,
                    ady as int,
                    j,
                ),
        decreases dda_measure(side as int, cx as int, cy as int, sx as int, sy as int),
    {
        let ghost s_pre = DdaState {
            cx: cx as int,
            cy: cy as int,
            nx: nx as int,
            ny: ny as int,
            axis_y: ay,
        };

        let step_x: bool = if sx == 0 {
            false
        } else if sy == 0 {
            true
        } else {
            proof {
                lemma_i64_mul_fits_i128(nx as int, ady as int);
                lemma_i64_mul_fits_i128(ny as int, adx as int);
            }
            (nx as i128) * (ady as i128) < (ny as i128) * (adx as i128)
        };
        proof {
            assert(step_x == (sx != 0 && (sy == 0 || s_pre.nx * (ady as int) < s_pre.ny * (
            adx as int))));
        }

        let hit_n: i64;
        if step_x {
            proof {
                assert((sx == 1 ==> ox + (nx + q) == (cx + 2) * q) && (sx == -1 ==> ox - (nx + q)
                    == (cx - 1) * q) && nx + q <= side * q && side * q <= 0x100000)
                    by (nonlinear_arith)
                    requires
                        nx >= 0,
                        1 <= q <= 4096,
                        3 <= side <= 256,
                        0 <= ox,
                        ox < (side - 1) * q,
                        sx == 1 || sx == -1,
                        sx == 1 ==> ox + nx == (cx + 1) * q,
                        sx == -1 ==> ox - nx == cx * q,
                        1 <= cx <= side - 2,
                ;
            }
            hit_n = nx;
            nx = nx + q;
            if sx == 1 {
                cx = cx + 1;
            } else {
                cx = cx - 1;
            }
            proof {
                ay = false;
            }
        } else {
            proof {
                assert(sy != 0);
                assert((sy == 1 ==> oy + (ny + q) == (cy + 2) * q) && (sy == -1 ==> oy - (ny + q)
                    == (cy - 1) * q) && ny + q <= side * q && side * q <= 0x100000)
                    by (nonlinear_arith)
                    requires
                        ny >= 0,
                        1 <= q <= 4096,
                        3 <= side <= 256,
                        0 <= oy,
                        oy < (side - 1) * q,
                        sy == 1 || sy == -1,
                        sy == 1 ==> oy + ny == (cy + 1) * q,
                        sy == -1 ==> oy - ny == cy * q,
                        1 <= cy <= side - 2,
                ;
            }
            hit_n = ny;
            ny = ny + q;
            if sy == 1 {
                cy = cy + 1;
            } else {
                cy = cy - 1;
            }
            proof {
                ay = true;
            }
        }
        proof {
            k = k + 1;
            assert(dda_iter(s0, q as int, sx as int, sy as int, adx as int, ady as int, k)
                == dda_step(
                dda_iter(s0, q as int, sx as int, sy as int, adx as int, ady as int, (k - 1) as nat),
                q as int,
                sx as int,
                sy as int,
                adx as int,
                ady as int,
            ));
            assert(dda_iter(s0, q as int, sx as int, sy as int, adx as int, ady as int, k)
                == (DdaState {
                cx: cx as int,
                cy: cy as int,
                nx: nx as int,
                ny: ny as int,
                axis_y: ay,
            }));
        }

        let t = grid.at(cx, cy);
        proof {
            lemma_cell_index_in_range(side as int, cx as int, cy as int);
        }
        if t > 0 {
            let den: i64;
            if step_x {
                proof {
                    lemma_mul_upper_bound(q as int, MAX_POS_DEN as int, adx as int, MAX_DIR as int);
                    assert(q * adx >= 1) by (nonlinear_arith)
                        requires
                            q >= 1,
                            adx >= 1,
                    ;
                }
                den = q * adx;
            } else {
                proof {
                    lemma_mul_upper_bound(q as int, MAX_POS_DEN as int, ady as int, MAX_DIR as int);
                    assert(q * ady >= 1) by (nonlinear_arith)
                        requires
                            q >= 1,
                            ady >= 1,
                    ;
                }
                den = q * ady;
            }
            let depth = Frac::new(hit_n, den);
            let r = CastHit { tile: t, cell_x: cx, cell_y: cy, side_y: !step_x, depth };
            proof {
                assert(hits_after(*grid, pos, dir_x as int, dir_y as int, k, r));
                assert((step_x && sx == 1 ==> ox + hit_n == cx * q) && (step_x && sx == -1 ==> ox
                    - hit_n == (cx + 1) * q) && (!step_x && sy == 1 ==> oy + hit_n == cy * q) && (
                !step_x && sy == -1 ==> oy - hit_n == (cy + 1) * q) && hit_n <= side * q)
                    by (nonlinear_arith)
                    requires
                        q >= 1,
                        3 <= side,
                        0 <= ox < (side - 1) * q,
                        0 <= oy < (side - 1) * q,
                        hit_n >= 0,
                        0 <= cx <= side - 1,
                        0 <= cy <= side - 1,
                        step_x ==> (sx == 1 || sx == -1) && nx == hit_n + q,
                        !step_x ==> (sy == 1 || sy == -1) && ny == hit_n + q,
                        sx == 1 ==> ox + nx == (cx + 1) * q,
                        sx == -1 ==> ox - nx == cx * q,
                        sy == 1 ==> oy + ny == (cy + 1) * q,
                        sy == -1 ==> oy - ny == cy * q,
                ;
            }
            return r;
        }
        proof {
            assert(grid.interior(cx as int, cy as int)) by {
                assert(grid.in_bounds(cx as int, cy as int));
                assert(grid.cell(cx as int, cy as int) == 0);
            }
            assert forall|j: nat| 1 <= j <= k implies #[trigger] step_lands_empty(
                *grid,
                s0,
                q as int,
                sx as int,
                sy as int,
                adx as int,
                ady as int,
                j,
            ) by {
                if j < k {
                    assert(1 <= j <= k - 1);
                }
            }
        }
    }
}

/// For a traversal whose X direction component is zero, every step advances
/// the Y axis: after `j` steps the cell has moved `j` rows and the Y side
/// distance has grown by `j` whole grid units.
pub proof fn lemma_axis_iter_closed_form(
    s0: DdaState,
    q: int,
    sy: int,
    ady: int,
    j: nat,
)
    requires
        sy == 1 || sy == -1,
    ensures
        dda_iter(s0, q, 0, sy, 0, ady, j) == (DdaState {
            cx: s0.cx,
            cy: s0.cy + j * sy,
            nx: s0.nx,
            ny: s0.ny + j * q,
            axis_y: if j == 0 {
                s0.axis_y
            } else {
                true
            },
        }),
    decreases j,
{
    if j > 0 {
        lemma_axis_iter_closed_form(s0, q, sy, ady, (j - 1) as nat);
        assert((j - 1) * sy + sy == j * sy) by (nonlinear_arith);
        assert((j - 1) * q + q == j * q) by (nonlinear_arith);
    }
}

/// For an exactly axis-aligned ray (here: along the Y axis), the traversal
/// walks straight down the origin's column, the hit cell is the first
/// non-empty cell of that column in the ray's direction, and the returned
/// depth is exactly the count of grid units from the origin's fractional
/// offset to the grid line entering that cell: `depth = |hit_line - oy/q|`,
/// scaled by `|dir_y|`.
pub proof fn lemma_axis_aligned_hit(grid: Grid, pos: Vec2q, dir_y: int, k: nat, r: CastHit)
    requires
        cast_ok(grid, pos, 0, dir_y),
        hits_after(grid, pos, 0, dir_y, k, r),
    ensures
        r.side_y,
        r.cell_x == pos.xn as int / pos.den as int,
        r.depth.den == pos.den * abs_of(dir_y),
        dir_y > 0 ==> r.cell_y == pos.yn as int / pos.den as int + k,
        dir_y > 0 ==> pos.yn + r.depth.num == r.cell_y * pos.den,
        dir_y > 0 ==> forall|row: int|
            (pos.yn as int / pos.den as int) < row && row < r.cell_y ==> grid.cell(
                r.cell_x as int,
                row,
            ) == 0,
        dir_y < 0 ==> r.cell_y == pos.yn as int / pos.den as int - k,
        dir_y < 0 ==> pos.yn - r.depth.num == (r.cell_y + 1) * pos.den,
        dir_y < 0 ==> forall|row: int|
            r.cell_y < row && row < (pos.yn as int / pos.den as int) ==> grid.cell(
                r.cell_x as int,
                row,
            ) == 0,
{
    let q = pos.den as int;
    let sy = sign_of(dir_y);
    let ady = abs_of(dir_y);
    let s0 = dda_init(pos.xn as int, pos.yn as int, q, 0, dir_y);
    let cy0 = pos.yn as int / q;
    lemma_axis_iter_closed_form(s0, q, sy, ady, k);
    let s = dda_iter(s0, q, 0, sy, 0, ady, k);
    assert(s.cy == cy0 + k * sy);
    if dir_y > 0 {
        assert(r.cell_y == cy0 + k);
        assert(pos.yn + r.depth.num == r.cell_y * pos.den) by (nonlinear_arith)
            requires
                r.depth.num == s0.ny + k * q - q,
                s0.ny == (cy0 + 1) * q - pos.yn,
                r.cell_y == cy0 + k,
                q == pos.den,
                k >= 1,
        ;
        assert forall|row: int| cy0 < row < r.cell_y implies grid.cell(r.cell_x as int, row)
            == 0 by {
            let j = (row - cy0) as nat;
            assert(1 <= j < k);
            assert(step_lands_empty(grid, s0, q, 0, sy, 0, ady, j));
            lemma_axis_iter_closed_form(s0, q, sy, ady, j);
            assert(j * sy == j) by (nonlinear_arith)
                requires
                    sy == 1,
            ;
        }
    } else {
        assert(sy == -1);
        assert(k * sy == -(k as int)) by (nonlinear_arith)
            requires
                sy == -1,
        ;
        assert(r.cell_y == cy0 - k);
        assert(pos.yn - r.depth.num == (r.cell_y + 1) * pos.den) by (nonlinear_arith)
            requires
                r.depth.num == s0.ny + k * q - q,
                s0.ny == pos.yn - cy0 * q,
                r.cell_y == cy0 - k,
                q == pos.den,
                k >= 1,
        ;
        assert forall|row: int| r.cell_y < row < cy0 implies grid.cell(r.cell_x as int, row)
            == 0 by {
            let j = (cy0 - row) as nat;
            assert(1 <= j < k);
            assert(step_lands_empty(grid, s0, q, 0, sy, 0, ady, j));
            lemma_axis_iter_closed_form(s0, q, sy, ady, j);
            assert(j * sy == -(j as int)) by (nonlinear_arith)
                requires
                    sy == -1,
            ;
        }
    }
}

/// For a traversal whose Y direction component is zero, every step advances
/// the X axis: after `j` steps the cell has moved `j` columns and the X side
/// distance has grown by `j` whole grid units.
pub proof fn lemma_axis_iter_closed_form_x(
    s0: DdaState,
    q: int,
    sx: int,
    adx: int,
    j: nat,
)
    requires
        sx == 1 || sx == -1,
    ensures
        dda_iter(s0, q, sx, 0, adx, 0, j) == (DdaState {
            cx: s0.cx + j * sx,
            cy: s0.cy,
            nx: s0.nx + j * q,
            ny: s0.ny,
            axis_y: if j == 0 {
                s0.axis_y
            } else {
                false
            },
        }),
    decreases j,
{
    if j > 0 {
        lemma_axis_iter_closed_form_x(s0, q, sx, adx, (j - 1) as nat);
        assert((j - 1) * sx + sx == j * sx) by (nonlinear_arith);
        assert((j - 1) * q + q == j * q) by (nonlinear_arith);
    }
}

/// The X-axis mirror of `lemma_axis_aligned_hit`: a ray aligned with the X
/// axis walks straight along the origin's row, strikes the first non-empty
/// cell of that row in its direction, and its depth is exactly the count of
/// grid units from the origin's fractional offset to the grid line entering
/// that cell, scaled by `|dir_x|`.
pub proof fn lemma_axis_aligned_hit_x(grid: Grid, pos: Vec2q, dir_x: int, k: nat, r: CastHit)
    requires
        cast_ok(grid, pos, dir_x, 0),
        hits_after(grid, pos, dir_x, 0, k, r),
    ensures
        !r.side_y,
        r.cell_y == pos.yn as int / pos.den as int,
        r.depth.den == pos.den * abs_of(dir_x),
        dir_x > 0 ==> r.cell_x == pos.xn as int / pos.den as int + k,
        dir_x > 0 ==> pos.xn + r.depth.num == r.cell_x * pos.den,
        dir_x > 0 ==> forall|col: int|
            (pos.xn as int / pos.den as int) < col && col < r.cell_x ==> grid.cell(
                col,
                r.cell_y as int,
            ) == 0,
        dir_x < 0 ==> r.cell_x == pos.xn as int / pos.den as int - k,
        dir_x < 0 ==> pos.xn - r.depth.num == (r.cell_x + 1) * pos.den,
        dir_x < 0 ==> forall|col: int|
            r.cell_x < col && col < (pos.xn as int / pos.den as int) ==> grid.cell(
                col,
                r.cell_y as int,
            ) == 0,
{
    let q = pos.den as int;
    let sx = sign_of(dir_x);
    let adx = abs_of(dir_x);
    let s0 = dda_init(pos.xn as int, pos.yn as int, q, dir_x, 0);
    let cx0 = pos.xn as int / q;
    lemma_axis_iter_closed_form_x(s0, q, sx, adx, k);
    let s = dda_iter(s0, q, sx, 0, adx, 0, k);
    assert(s.cx == cx0 + k * sx);
    if dir_x > 0 {
        assert(r.cell_x == cx0 + k);
        assert(pos.xn + r.depth.num == r.cell_x * pos.den) by (nonlinear_arith)
            requires
                r.depth.num == s0.nx + k * q - q,
                s0.nx == (cx0 + 1) * q - pos.xn,
                r.cell_x == cx0 + k,
                q == pos.den,
                k >= 1,
        ;
        assert forall|col: int| cx0 < col < r.cell_x implies grid.cell(col, r.cell_y as int)
            == 0 by {
            let j = (col - cx0) as nat;
            assert(1 <= j < k);
            assert(step_lands_empty(grid, s0, q, sx, 0, adx, 0, j));
            lemma_axis_iter_closed_form_x(s0, q, sx, adx, j);
            assert(j * sx == j) by (nonlinear_arith)
                requires
                    sx == 1,
            ;
        }
    } else {
        assert(sx == -1);
        assert(k * sx == -(k as int)) by (nonlinear_arith)
            requires
                sx == -1,
        ;
        assert(r.cell_x == cx0 - k);
        assert(pos.xn - r.depth.num == (r.cell_x + 1) * pos.den) by (nonlinear_arith)
            requires
                r.depth.num == s0.nx + k * q - q,
                s0.nx == pos.xn - cx0 * q,
                r.cell_x == cx0 - k,
                q == pos.den,
                k >= 1,
        ;
        assert forall|col: int| r.cell_x < col < cx0 implies grid.cell(col, r.cell_y as int)
            == 0 by {
            let j = (cx0 - col) as nat;
            assert(1 <= j < k);
            assert(step_lands_empty(grid, s0, q, sx, 0, adx, 0, j));
            lemma_axis_iter_closed_form_x(s0, q, sx, adx, j);
            assert(j * sx == -(j as int)) by (nonlinear_arith)
                requires
                    sx == -1,
            ;
        }
    }
}

/// Fisheye correction, algebraically. A column ray is
/// `dir = facing·res + perp(facing)·c` for the camera-plane offset `c`; its
/// dot product with the facing vector is `res·|facing|²` no matter the
/// offset. The displacement from origin to hit is `depth·dir`, so the
/// component of that displacement along the forward axis is
/// `depth·res·|facing|²`, while its Euclidean length squared is
/// `depth²·(res² + c²)·|facing|²`. Dividing, the returned depth equals the
/// Euclidean hit distance times the cosine of the ray's angle off the
/// forward axis (up to the fixed `res·|facing|` normalization): planar
/// depth, not radial.
pub proof fn lemma_perp_depth(fx: int, fy: int, c: int, res: int, dx: int, dy: int)
    requires
        dx == fx * res - fy * c,
        dy == fy * res + fx * c,
    ensures
        dx * fx + dy * fy == res * (fx * fx + fy * fy),
        dx * (-fy) + dy * fx == c * (fx * fx + fy * fy),
        dx * dx + dy * dy == (res * res + c * c) * (fx * fx + fy * fy),
{
    assert(dx * fx + dy * fy == res * (fx * fx + fy * fy)) by (nonlinear_arith)
        requires
            dx == fx * res - fy * c,
            dy == fy * res + fx * c,
    ;
    assert(dx * (-fy) + dy * fx == c * (fx * fx + fy * fy)) by (nonlinear_arith)
        requires
            dx == fx * res - fy * c,
            dy == fy * res + fx * c,
    ;
    lemma_square_of_diff(fx * res, fy * c, dx);
    lemma_square_of_sum(fy * res, fx * c, dy);
    lemma_product_of_squares(fx, res);
    lemma_product_of_squares(fy, c);
    lemma_product_of_squares(fy, res);
    lemma_product_of_squares(fx, c);
    lemma_mul_exchange(fx, res, fy, c);
    lemma_mul_exchange(fy, res, fx, c);
    assert((fx * fy) * (res * c) == (fy * fx) * (res * c));
    assert((res * res + c * c) * (fx * fx + fy * fy) == (fx * fx) * (res * res) + (fy * fy) * (res
        * res) + (fx * fx) * (c * c) + (fy * fy) * (c * c)) by (nonlinear_arith);
}

/// `(a - b)² = a² - 2ab + b²`.
pub proof fn lemma_square_of_diff(a: int, b: int, d: int)
    by (nonlinear_arith)
    requires
        d == a - b,
    ensures
        d * d == a * a - 2 * (a * b) + b * b,
{
}

/// `(a + b)² = a² + 2ab + b²`.
pub proof fn lemma_square_of_sum(a: int, b: int, d: int)
    by (nonlinear_arith)
    requires
        d == a + b,
    ensures
        d * d == a * a + 2 * (a * b) + b * b,
{
}

/// `(x·y)² = x²·y²`.
pub proof fn lemma_product_of_squares(x: int, y: int)
    by (nonlinear_arith)
    ensures
        (x * y) * (x * y) == (x * x) * (y * y),
{
}

/// Factors of a four-way product can be regrouped.
pub proof fn lemma_mul_exchange(x: int, y: int, z: int, w: int)
    by (nonlinear_arith)
    ensures
        (x * y) * (z * w) == (x * z) * (y * w),
{
}

/// The origin's cell `ox / q` lies strictly inside the border ring when the
/// origin lies strictly between the first and last grid lines of the
/// interior.
pub proof fn lemma_div_in_interior(ox: int, q: int, side: int)
    by (nonlinear_arith)
    requires
        1 <= q,
        q < ox,
        ox < (side - 1) * q,
        3 <= side,
    ensures
        1 <= ox / q <= side - 2,
        (ox / q) * q <= ox < ((ox / q) + 1) * q,
{
}

} // verus!
