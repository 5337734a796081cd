//! The scene aggregate: exactly one grid and one player.
//!
//! Each carries an active flag that gates whether it takes part in the
//! current frame at all — an inactive entity is skipped entirely, never
//! partially processed.

use vstd::prelude::*;
use crate::cast::MAX_POS_DEN;
use crate::grid::{Grid, MAX_TILE, toggle_open};
use crate::minimap::{Marker, MiniRect, mini_rect_ok, minimap_rects, player_marker};
use crate::motion::{Pose, MAX_UNIT};
use crate::render::{ColumnSlice, RenderConfig, column_slice_ok, render_columns};

verus! {

/// The player entity: a pose, and the flag gating its part in a frame.
#[derive(Clone, Copy, Debug)]
pub struct Player {
    pub pose: Pose,
    pub active: bool,
}

/// The scene: one grid and one player, each gated by its active flag.
#[derive(Debug)]
pub struct Scene {
    pub grid: Grid,
    pub grid_active: bool,
    pub player: Player,
}

impl Scene {
    pub open spec fn wf(self) -> bool {
        self.grid.wf() && self.player.pose.wf()
    }

    /// The player stands strictly inside the grid interior, with the
    /// machine-size bounds a cast needs.
    pub open spec fn pose_castable(self) -> bool {
        let pose = self.player.pose;
        &&& pose.pos.den <= MAX_POS_DEN
        &&& pose.pos.den < pose.pos.xn < (self.grid.side - 1) * pose.pos.den
        &&& pose.pos.den < pose.pos.yn < (self.grid.side - 1) * pose.pos.den
        &&& -MAX_UNIT <= pose.dir.xn <= MAX_UNIT
        &&& -MAX_UNIT <= pose.dir.yn <= MAX_UNIT
        &&& pose.dir.den <= MAX_UNIT
    }

    /// Render one frame of wall slices. When the grid or the player is
    /// inactive the frame is empty; otherwise it is exactly one slice per
    /// screen column.
    pub fn render(&self, cfg: &RenderConfig) -> (out: Vec<ColumnSlice>)
        requires
            self.wf(),
            cfg.wf(),
            self.grid_active && self.player.active ==> self.pose_castable(),
        ensures
            self.grid_active && self.player.active ==> out.len() == cfg.resolution && forall|i: int|
                0 <= i < out.len() ==> #[trigger] column_slice_ok(
                    self.grid,
                    self.player.pose,
                    *cfg,
                    i,
                    out[i],
                ),
            !(self.grid_active && self.player.active) ==> out.len() == 0,
    {
        if self.grid_active && self.player.active {
            render_columns(&self.grid, &self.player.pose, cfg)
        } else {
            Vec::new()
        }
    }

    /// The minimap grid blit; empty when the grid is inactive.
    pub fn minimap(&self, scale: i64) -> (out: Vec<MiniRect>)
        requires
            self.wf(),
            1 <= scale <= MAX_UNIT,
        ensures
            self.grid_active ==> out.len() == self.grid.cells.len() && forall|k: int|
                0 <= k < out.len() ==> #[trigger] mini_rect_ok(self.grid, scale as int, k, out[k]),
            !self.grid_active ==> out.len() == 0,
    {
        if self.grid_active {
            minimap_rects(&self.grid, scale)
        } else {
            Vec::new()
        }
    }

    /// The minimap player marker; absent when the player is inactive.
    pub fn marker(&self, scale: i64) -> (m: Option<Marker>)
        requires
            self.wf(),
            self.player.pose.in_range(),
            1 <= scale <= MAX_UNIT,
        ensures
            self.player.active <==> m is Some,
    {
        if self.player.active {
            Some(player_marker(&self.player.pose, scale))
        } else {
            None
        }
    }

    /// Advance the blinking cell from the clock; a frame with an inactive
    /// grid leaves the grid untouched.
    pub fn tick_toggle(&mut self, x: usize, y: usize, wall: u8, now_ms: u64)
        requires
            old(self).wf(),
            old(self).grid.interior(x as int, y as int),
            1 <= wall <= MAX_TILE,
        ensures
            final(self).wf(),
            final(self).player == old(self).player,
            final(self).grid_active == old(self).grid_active,
            final(self).grid.side == old(self).grid.side,
            old(self).grid_active ==> final(self).grid.cell(x as int, y as int) == (if toggle_open(
                now_ms,
            ) {
                0u8
            } else {
                wall
            }),
            old(self).grid_active ==> forall|xx: int, yy: int|
                old(self).grid.in_bounds(xx, yy) && (xx != x || yy != y) ==> final(self).grid.cell(
                    xx,
                    yy,
                ) == old(self).grid.cell(xx, yy),
            !old(self).grid_active ==> final(self).grid == old(self).grid,
    {
        if self.grid_active {
            self.grid.apply_toggle(x, y, wall, now_ms);
        }
    }
}

} // verus!
