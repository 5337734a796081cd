//! The top-down minimap overlay, as exact geometry.
//!
//! The map is one filled square per grid cell at a fixed pixel scale, in the
//! same palette as the wall slices; the player is a filled circle plus a
//! short heading segment. This module computes the rectangles, circle and
//! segment exactly; the drawing layer only blits them.

use vstd::prelude::*;
use vstd::arithmetic::div_mod::lemma_fundamental_div_mod_converse;
use crate::frac::Frac;
use crate::grid::Grid;
use crate::motion::{Pose, lemma_mul_bounds, lemma_mul_pos, MAX_UNIT, MAX_COORD};
use crate::render::{Rgb, wall_color, wall_color_spec};

verus! {

/// Length of the heading segment, in multiples of the map scale.
pub const HEADING_LEN: i64 = 20;

/// One minimap cell: a filled square in pixels.
#[derive(Clone, Copy, Debug)]
pub struct MiniRect {
    pub x: i64,
    pub y: i64,
    pub size: i64,
    pub color: Rgb,
}

/// The `k`-th rectangle (row-major) sits at the `k`-th cell scaled by
/// `scale` and carries that cell's palette color.
pub open spec fn mini_rect_ok(grid: Grid, scale: int, k: int, r: MiniRect) -> bool {
    &&& r.x == (k % (grid.side as int)) * scale
    &&& r.y == (k / (grid.side as int)) * scale
    &&& r.size == scale
    &&& r.color == wall_color_spec(grid.cells[k])
}

/// The grid blit: one scaled, palette-colored square per cell, row-major.
pub fn minimap_rects(grid: &Grid, scale: i64) -> (out: Vec<MiniRect>)
    requires
        grid.wf(),
        1 <= scale <= MAX_UNIT,
    ensures
        out.len() == grid.cells.len(),
        forall|k: int| 0 <= k < out.len() ==> #[trigger] mini_rect_ok(*grid, scale as int, k, out[k]),
{
    let side = grid.side;
    let mut out: Vec<MiniRect> = Vec::new();
    let mut y: usize = 0;
    while y < side
        invariant
            grid.wf(),
            1 <= scale <= MAX_UNIT,
            side == grid.side,
            y <= side,
            out.len() == y * side,
            forall|k: int|
                0 <= k < out.len() ==> #[trigger] mini_rect_ok(*grid, scale as int, k, out[k]),
        decreases side - y,
    {
        let mut x: usize = 0;
        while x < side
            invariant
                grid.wf(),
                1 <= scale <= MAX_UNIT,
                side == grid.side,
                y < side,
                x <= side,
                out.len() == y * side + x,
                forall|k: int|
                    0 <= k < out.len() ==> #[trigger] mini_rect_ok(*grid, scale as int, k, out[k]),
            decreases side - x,
        {
            proof {
                lemma_mul_bounds(y as int, 256, side as int, 256);
                lemma_mul_bounds(x as int, 256, scale as int, MAX_UNIT as int);
                lemma_mul_bounds(y as int, 256, scale as int, MAX_UNIT as int);
                assert(y * side + x < side * side) by (nonlinear_arith)
                    requires
                        0 <= x < side,
                        0 <= y < side,
                ;
            }
            let k = y * side + x;
            let tile = grid.cells[k];
            let rect = MiniRect {
                x: (x as i64) * scale,
                y: (y as i64) * scale,
                size: scale,
                color: wall_color(tile),
            };
            out.push(rect);
            proof {
                lemma_fundamental_div_mod_converse(k as int, side as int, y as int, x as int);
                assert(mini_rect_ok(*grid, scale as int, k as int, rect));
            }
            x += 1;
        }
        proof {
            assert(y * side + side == (y + 1) * side) by (nonlinear_arith);
        }
        y += 1;
    }
    proof {
        assert(side * side == grid.cells.len());
    }
    out
}

/// The player marker: circle center and radius, heading segment tip, and
/// segment thickness, all in pixels as exact fractions.
#[derive(Clone, Copy, Debug)]
pub struct Marker {
    pub cx: Frac,
    pub cy: Frac,
    pub radius: Frac,
    pub tip_x: Frac,
    pub tip_y: Frac,
    pub thickness: Frac,
}

/// Scale the player's position to pixels; the heading segment runs from the
/// center toward the facing, `HEADING_LEN` map scales long per unit facing;
/// the circle radius is half a scale and the segment a sixth of one thick.
pub fn player_marker(pose: &Pose, scale: i64) -> (m: Marker)
    requires
        pose.wf(),
        pose.in_range(),
        1 <= scale <= MAX_UNIT,
    ensures
        m.cx.wf() && m.cy.wf() && m.radius.wf() && m.tip_x.wf() && m.tip_y.wf() && m.thickness.wf(),
        m.cx.num == pose.pos.xn * scale && m.cx.den == pose.pos.den,
        m.cy.num == pose.pos.yn * scale && m.cy.den == pose.pos.den,
        m.radius.num == scale && m.radius.den == 2,
        m.thickness.num == scale && m.thickness.den == 6,
        m.tip_x.num == pose.pos.xn * scale * pose.dir.den + pose.dir.xn * (HEADING_LEN * scale)
            * pose.pos.den,
        m.tip_y.num == pose.pos.yn * scale * pose.dir.den + pose.dir.yn * (HEADING_LEN * scale)
            * pose.pos.den,
        m.tip_x.den == pose.pos.den * pose.dir.den && m.tip_y.den == pose.pos.den * pose.dir.den,
{
    proof {
        lemma_mul_bounds(pose.pos.xn as int, MAX_COORD as int, scale as int, MAX_UNIT as int);
        lemma_mul_bounds(pose.pos.yn as int, MAX_COORD as int, scale as int, MAX_UNIT as int);
        lemma_mul_bounds(
            pose.pos.xn as int * scale as int,
            0x100000000,
            pose.dir.den as int,
            MAX_UNIT as int,
        );
        lemma_mul_bounds(
            pose.pos.yn as int * scale as int,
            0x100000000,
            pose.dir.den as int,
            MAX_UNIT as int,
        );
        lemma_mul_bounds(pose.dir.xn as int, MAX_UNIT as int, HEADING_LEN as int * scale as int,
            0x20000);
        lemma_mul_bounds(pose.dir.yn as int, MAX_UNIT as int, HEADING_LEN as int * scale as int,
            0x20000);
        lemma_mul_bounds(
            pose.dir.xn as int * (HEADING_LEN as int * scale as int),
            0x80000000,
            pose.pos.den as int,
            MAX_UNIT as int,
        );
        lemma_mul_bounds(
            pose.dir.yn as int * (HEADING_LEN as int * scale as int),
            0x80000000,
            pose.pos.den as int,
            MAX_UNIT as int,
        );
        lemma_mul_pos(pose.pos.den as int, pose.dir.den as int);
        lemma_mul_bounds(pose.pos.den as int, MAX_UNIT as int, pose.dir.den as int,
            MAX_UNIT as int);
    }
    let cx = Frac { num: pose.pos.xn * scale, den: pose.pos.den };
    let cy = Frac { num: pose.pos.yn * scale, den: pose.pos.den };
    let radius = Frac { num: scale, den: 2 };
    let thickness = Frac { num: scale, den: 6 };
    let tip_den = pose.pos.den * pose.dir.den;
    let tip_x = Frac {
        num: pose.pos.xn * scale * pose.dir.den + pose.dir.xn * (HEADING_LEN * scale)
            * pose.pos.den,
        den: tip_den,
    };
    let tip_y = Frac {
        num: pose.pos.yn * scale * pose.dir.den + pose.dir.yn * (HEADING_LEN * scale)
            * pose.pos.den,
        den: tip_den,
    };
    Marker { cx, cy, radius, tip_x, tip_y, thickness }
}

} // verus!
