//! The per-column rendering pipeline.
//!
//! For each of `resolution` screen columns a ray is fanned out through the
//! camera plane (the perpendicular of the facing direction), cast through the
//! grid, and the hit turned into a vertically centered wall slice: a screen
//! rectangle plus a wall color. All geometry is exact rational arithmetic;
//! only the final distance-attenuation shade (an exponential) is left to the
//! drawing layer, which receives the exact depth.

use vstd::prelude::*;
use crate::frac::{Frac, Vec2q};
use crate::cast::{CastHit, cast_ok, hits_after, single_cast, lemma_perp_depth, abs_of,
    MAX_POS_DEN, MAX_DIR};
use crate::grid::Grid;
use crate::motion::{Pose, lemma_mul_bounds, lemma_mul_pos, MAX_UNIT};

verus! {

/// Largest accepted number of screen columns.
pub const MAX_RES: usize = 4096;

/// Largest accepted screen dimension in pixels.
pub const MAX_SCREEN: i64 = 16384;

/// Denominator of the minimum depth a degenerate (zero-depth) hit is clamped
/// to before the slice height is formed.
pub const DEPTH_EPS_DEN: i64 = 1024;

/// A wall color; channels are hundredths of full intensity (0 to 100).
#[derive(Clone, Copy, Debug, PartialEq, Eq, Structural)]
pub struct Rgb {
    pub r: u8,
    pub g: u8,
    pub b: u8,
}

/// The palette: one display color per wall material, black for the empty
/// tile (never struck, since grid borders are walls).
pub open spec fn wall_color_spec(tile: u8) -> Rgb {
    if tile == 1 {
        Rgb { r: 99, g: 98, b: 0 }  // yellow
    } else if tile == 2 {
        Rgb { r: 0, g: 89, b: 19 }  // green
    } else if tile == 3 {
        Rgb { r: 0, g: 47, b: 95 }  // blue
    } else if tile == 4 {
        Rgb { r: 100, g: 43, b: 76 }  // pink
    } else if tile == 5 {
        Rgb { r: 100, g: 63, b: 0 }  // orange
    } else {
        Rgb { r: 0, g: 0, b: 0 }  // void
    }
}

/// Look up the display color of a tile.
pub fn wall_color(tile: u8) -> (c: Rgb)
    ensures
        c == wall_color_spec(tile),
{
    match tile {
        1 => Rgb { r: 99, g: 98, b: 0 },
        2 => Rgb { r: 0, g: 89, b: 19 },
        3 => Rgb { r: 0, g: 47, b: 95 },
        4 => Rgb { r: 100, g: 43, b: 76 },
        5 => Rgb { r: 100, g: 63, b: 0 },
        _ => Rgb { r: 0, g: 0, b: 0 },
    }
}

/// Why a render configuration was rejected.
#[derive(Clone, Copy, Debug, PartialEq, Eq, Structural)]
pub enum ConfigError {
    /// Zero columns would render nothing and divide by zero.
    ZeroResolution,
    /// More columns than `MAX_RES`.
    ResolutionTooLarge,
    /// A screen dimension is zero or negative.
    ScreenTooSmall,
    /// A screen dimension exceeds `MAX_SCREEN`.
    ScreenTooLarge,
}

/// Validated render parameters: the number of screen columns and the screen
/// size in pixels.
#[derive(Clone, Copy, Debug)]
pub struct RenderConfig {
    pub resolution: usize,
    pub screen_w: i64,
    pub screen_h: i64,
}

impl RenderConfig {
    pub open spec fn wf(self) -> bool {
        &&& 1 <= self.resolution <= MAX_RES
        &&& 1 <= self.screen_w <= MAX_SCREEN
        &&& 1 <= self.screen_h <= MAX_SCREEN
    }

    /// Validate render parameters; the error names the first failed check in
    /// the order resolution, screen size.
    pub fn new(resolution: usize, screen_w: i64, screen_h: i64) -> (r: Result<
        RenderConfig,
        ConfigError,
    >)
        ensures
            r is Ok <==> (RenderConfig { resolution, screen_w, screen_h }).wf(),
            r is Ok ==> r->Ok_0 == (RenderConfig { resolution, screen_w, screen_h }),
            r == Err::<RenderConfig, ConfigError>(ConfigError::ZeroResolution) <==> resolution
                == 0,
            r == Err::<RenderConfig, ConfigError>(ConfigError::ResolutionTooLarge) <==> resolution
                > MAX_RES,
            r == Err::<RenderConfig, ConfigError>(ConfigError::ScreenTooSmall) <==> (1
                <= resolution <= MAX_RES && (screen_w < 1 || screen_h < 1)),
            r == Err::<RenderConfig, ConfigError>(ConfigError::ScreenTooLarge) <==> (1
                <= resolution <= MAX_RES && screen_w >= 1 && screen_h >= 1 && (screen_w
                > MAX_SCREEN || screen_h > MAX_SCREEN)),
    {
        if resolution == 0 {
            Err(ConfigError::ZeroResolution)
        } else if resolution > MAX_RES {
            Err(ConfigError::ResolutionTooLarge)
        } else if screen_w < 1 || screen_h < 1 {
            Err(ConfigError::ScreenTooSmall)
        } else if screen_w > MAX_SCREEN || screen_h > MAX_SCREEN {
            Err(ConfigError::ScreenTooLarge)
        } else {
            Ok(RenderConfig { resolution, screen_w, screen_h })
        }
    }
}

/// X component of the ray of camera-relative column `i`: the facing scaled
/// by `res` plus its perpendicular `(-y, x)` scaled by the camera-plane
/// offset `2i - res` (the exact integer form of `2i/res - 1` with the
/// denominator `dir.den · res` dropped, which only rescales depth).
pub open spec fn ray_dir_x(dir: Vec2q, res: int, i: int) -> int {
    dir.xn * res - dir.yn * (2 * i - res)
}

/// Y component of the ray of camera-relative column `i`.
pub open spec fn ray_dir_y(dir: Vec2q, res: int, i: int) -> int {
    dir.yn * res + dir.xn * (2 * i - res)
}

/// One rendered wall slice: the ray hit it came from, the depth in facing
/// units (clamped above zero), and the exact screen rectangle and color to
/// draw.
#[derive(Clone, Copy, Debug)]
pub struct ColumnSlice {
    pub hit: CastHit,
    pub depth: Frac,
    pub x: Frac,
    pub width: Frac,
    pub top: Frac,
    pub height: Frac,
    pub color: Rgb,
}

/// `s` is the correct slice for column `i`: its hit is what the traversal
/// returns for this column's ray; its depth is the hit depth rescaled to
/// facing units (`· dir.den · res`), clamped to `1/DEPTH_EPS_DEN` when the
/// hit is at depth zero; its rectangle spans `[i·w/res, (i+1)·w/res)`
/// horizontally and is the centered slice of height `screen_h / depth`; its
/// color is the palette color of the tile struck.
pub open spec fn column_slice_ok(
    grid: Grid,
    pose: Pose,
    cfg: RenderConfig,
    i: int,
    s: ColumnSlice,
) -> bool {
    let res = cfg.resolution as int;
    let dx = ray_dir_x(pose.dir, res, i);
    let dy = ray_dir_y(pose.dir, res, i);
    &&& exists|k: nat| hits_after(grid, pose.pos, dx, dy, k, s.hit)
    &&& s.depth.wf()
    &&& 1 <= s.depth.num
    &&& (s.hit.depth.num == 0 ==> s.depth == (Frac { num: 1, den: DEPTH_EPS_DEN }))
    &&& (s.hit.depth.num > 0 ==> s.depth.num == s.hit.depth.num * pose.dir.den * res
        && s.depth.den == s.hit.depth.den)
    &&& s.x.num == cfg.screen_w * i
    &&& s.x.den == res
    &&& s.width.num == cfg.screen_w
    &&& s.width.den == res
    &&& s.top.num == cfg.screen_h * (s.depth.num - s.depth.den)
    &&& s.top.den == 2 * s.depth.num
    &&& s.height.num == cfg.screen_h * s.depth.den
    &&& s.height.den == s.depth.num
    &&& s.color == wall_color_spec(s.hit.tile)
}

/// Turn a positive depth into the centered wall slice geometry:
/// `height = screen_h / depth` and `top = screen_h/2 - height/2`.
pub fn wall_height(depth: Frac, screen_h: i64) -> (r: (Frac, Frac))
    requires
        depth.wf(),
        1 <= depth.num <= 0x400000000000,
        depth.den <= 0x400000000000,
        1 <= screen_h <= MAX_SCREEN,
    ensures
        r.0.wf(),
        r.1.wf(),
        r.0.num == screen_h * (depth.num - depth.den),
        r.0.den == 2 * depth.num,
        r.1.num == screen_h * depth.den,
        r.1.den == depth.num,
{
    proof {
        lemma_mul_bounds(screen_h as int, MAX_SCREEN as int, depth.den as int, 0x400000000000);
        lemma_mul_bounds(
            screen_h as int,
            MAX_SCREEN as int,
            depth.num as int - depth.den as int,
            0x400000000000,
        );
    }
    let top = Frac { num: screen_h * (depth.num - depth.den), den: 2 * depth.num };
    let height = Frac { num: screen_h * depth.den, den: depth.num };
    (top, height)
}

/// Sweep every screen column once: cast this column's ray, rescale and clamp
/// its depth, form the slice rectangle and color. Exactly one slice per
/// column comes back, each pinned to its own ray's traversal result.
pub fn render_columns(grid: &Grid, pose: &Pose, cfg: &RenderConfig) -> (out: Vec<ColumnSlice>)
    requires
        grid.wf(),
        pose.wf(),
        cfg.wf(),
        pose.pos.den <= MAX_POS_DEN,
        pose.pos.den < pose.pos.xn < (grid.side - 1) * pose.pos.den,
        pose.pos.den < pose.pos.yn < (grid.side - 1) * pose.pos.den,
        -MAX_UNIT <= pose.dir.xn <= MAX_UNIT,
        -MAX_UNIT <= pose.dir.yn <= MAX_UNIT,
        pose.dir.den <= MAX_UNIT,
    ensures
        out.len() == cfg.resolution,
        forall|i: int|
            0 <= i < out.len() ==> #[trigger] column_slice_ok(*grid, *pose, *cfg, i, out[i]),
{
    let res: usize = cfg.resolution;
    let res_i: i64 = res as i64;
    let mut out: Vec<ColumnSlice> = Vec::new();
    let mut i: usize = 0;
    while i < res
        invariant
            grid.wf(),
            pose.wf(),
            cfg.wf(),
            pose.pos.den <= MAX_POS_DEN,
            pose.pos.den < pose.pos.xn < (grid.side - 1) * pose.pos.den,
            pose.pos.den < pose.pos.yn < (grid.side - 1) * pose.pos.den,
            -MAX_UNIT <= pose.dir.xn <= MAX_UNIT,
            -MAX_UNIT <= pose.dir.yn <= MAX_UNIT,
            pose.dir.den <= MAX_UNIT,
            res == cfg.resolution,
            res_i == res,
            i <= res,
            out.len() == i,
            forall|j: int|
                0 <= j < out.len() ==> #[trigger] column_slice_ok(*grid, *pose, *cfg, j, out[j]),
        decreases res - i,
    {
        let c2: i64 = 2 * (i as i64) - res_i;
        proof {
            lemma_mul_bounds(pose.dir.xn as int, MAX_UNIT as int, res_i as int, MAX_RES as int);
            lemma_mul_bounds(pose.dir.yn as int, MAX_UNIT as int, res_i as int, MAX_RES as int);
            lemma_mul_bounds(pose.dir.xn as int, MAX_UNIT as int, c2 as int, MAX_RES as int);
            lemma_mul_bounds(pose.dir.yn as int, MAX_UNIT as int, c2 as int, MAX_RES as int);
        }
        let dx: i64 = pose.dir.xn * res_i - pose.dir.yn * c2;
        let dy: i64 = pose.dir.yn * res_i + pose.dir.xn * c2;
        proof {
            lemma_perp_depth(
                pose.dir.xn as int,
                pose.dir.yn as int,
                c2 as int,
                res_i as int,
                dx as int,
                dy as int,
            );
            assert(pose.dir.xn * pose.dir.xn + pose.dir.yn * pose.dir.yn >= 1) by (nonlinear_arith)
                requires
                    !(pose.dir.xn == 0 && pose.dir.yn == 0),
            ;
            lemma_mul_pos(
                res_i as int,
                pose.dir.xn as int * pose.dir.xn as int + pose.dir.yn as int * pose.dir.yn as int,
            );
            assert(!(dx == 0 && dy == 0));
            assert(cast_ok(*grid, pose.pos, dx as int, dy as int));
        }
        let hit = single_cast(grid, pose.pos, dx, dy);

        let depth: Frac;
        if hit.depth.num == 0 {
            depth = Frac { num: 1, den: DEPTH_EPS_DEN };
        } else {
            proof {
                lemma_mul_bounds(grid.side as int, 256, pose.pos.den as int, MAX_POS_DEN as int);
                lemma_mul_bounds(hit.depth.num as int, 0x100000, pose.dir.den as int,
                    MAX_UNIT as int);
                lemma_mul_bounds(
                    hit.depth.num as int * pose.dir.den as int,
                    0x100000000,
                    res_i as int,
                    MAX_RES as int,
                );
                lemma_mul_pos(hit.depth.num as int, pose.dir.den as int);
                lemma_mul_pos(hit.depth.num as int * pose.dir.den as int, res_i as int);
            }
            depth = Frac { num: hit.depth.num * pose.dir.den * res_i, den: hit.depth.den };
        }
        proof {
            if hit.depth.num > 0 {
                lemma_mul_bounds(
                    pose.pos.den as int,
                    MAX_POS_DEN as int,
                    abs_of(dx as int),
                    MAX_DIR as int,
                );
                lemma_mul_bounds(
                    pose.pos.den as int,
                    MAX_POS_DEN as int,
                    abs_of(dy as int),
                    MAX_DIR as int,
                );
            }
        }
        let (top, height) = wall_height(depth, cfg.screen_h);
        proof {
            lemma_mul_bounds(cfg.screen_w as int, MAX_SCREEN as int, i as int, MAX_RES as int);
        }
        let x = Frac { num: cfg.screen_w * (i as i64), den: res_i };
        let width = Frac { num: cfg.screen_w, den: res_i };
        let color = wall_color(hit.tile);
        let slice = ColumnSlice { hit, depth, x, width, top, height, color };
        out.push(slice);
        proof {
            assert(dx as int == ray_dir_x(pose.dir, cfg.resolution as int, i as int));
            assert(dy as int == ray_dir_y(pose.dir, cfg.resolution as int, i as int));
            let k0 = choose|k: nat| hits_after(*grid, pose.pos, dx as int, dy as int, k, hit);
            assert(hits_after(
                *grid,
                pose.pos,
                ray_dir_x(pose.dir, cfg.resolution as int, i as int),
                ray_dir_y(pose.dir, cfg.resolution as int, i as int),
                k0,
                slice.hit,
            ));
            assert(column_slice_ok(*grid, *pose, *cfg, i as int, slice));
        }
        i += 1;
    }
    out
}

/// One of the two flat backdrop fills drawn before the column pass.
#[derive(Clone, Copy, Debug)]
pub struct HalfRect {
    pub x: i64,
    pub y: Frac,
    pub w: i64,
    pub h: Frac,
    pub color: Rgb,
}

/// The two half-screen fills under the columns: sky (blue) over the top
/// half, floor (black) over the bottom half.
pub fn backdrop(cfg: &RenderConfig) -> (r: (HalfRect, HalfRect))
    requires
        cfg.wf(),
    ensures
        r.0.x == 0 && r.0.w == cfg.screen_w,
        r.0.y.num == 0 && r.0.y.den == 1,
        r.0.h.num == cfg.screen_h && r.0.h.den == 2,
        r.0.color == (Rgb { r: 0, g: 47, b: 95 }),
        r.1.x == 0 && r.1.w == cfg.screen_w,
        r.1.y.num == cfg.screen_h && r.1.y.den == 2,
        r.1.h.num == cfg.screen_h && r.1.h.den == 2,
        r.1.color == (Rgb { r: 0, g: 0, b: 0 }),
{
    let sky = HalfRect {
        x: 0,
        y: Frac { num: 0, den: 1 },
        w: cfg.screen_w,
        h: Frac { num: cfg.screen_h, den: 2 },
        color: Rgb { r: 0, g: 47, b: 95 },
    };
    let floor = HalfRect {
        x: 0,
        y: Frac { num: cfg.screen_h, den: 2 },
        w: cfg.screen_w,
        h: Frac { num: cfg.screen_h, den: 2 },
        color: Rgb { r: 0, g: 0, b: 0 },
    };
    (sky, floor)
}

/// Slice height shrinks strictly as depth grows (`screen_h / depth` is
/// strictly decreasing): of two hits at positive depths `d2 < d1`, the
/// nearer one draws the taller wall.
pub proof fn lemma_height_monotone(screen_h: int, d1: Frac, d2: Frac)
    requires
        screen_h >= 1,
        d1.wf(),
        d2.wf(),
        d1.num >= 1,
        d2.num >= 1,
        d2.lt_spec(d1),
    ensures
        (screen_h * d1.den) * d2.num < (screen_h * d2.den) * d1.num,
{
    assert((screen_h * d1.den) * d2.num < (screen_h * d2.den) * d1.num) by (nonlinear_arith)
        requires
            screen_h >= 1,
            d2.num * d1.den < d1.num * d2.den,
    ;
}

/// Every slice is vertically centered on the horizon: with the slice
/// geometry of `wall_height`, `top + height/2 == screen_h/2` as rationals
/// (cross-multiplied over the common denominator).
pub proof fn lemma_slice_centered(screen_h: int, depth: Frac, top: Frac, height: Frac)
    requires
        depth.wf(),
        depth.num >= 1,
        top.num == screen_h * (depth.num - depth.den),
        top.den == 2 * depth.num,
        height.num == screen_h * depth.den,
        height.den == depth.num,
    ensures
        2 * top.num * height.den + height.num * top.den == screen_h * (top.den * height.den),
{
    assert(2 * (screen_h * (depth.num - depth.den)) * depth.num + (screen_h * depth.den) * (2
        * depth.num) == screen_h * ((2 * depth.num) * depth.num)) by (nonlinear_arith);
}

/// Of two slices of one frame, the one at the greater depth draws the
/// strictly shorter wall: `height = screen_h / depth` falls as depth grows,
/// stated over the slices' own height fractions by cross-multiplication.
pub proof fn lemma_deeper_slice_is_shorter(
    grid: Grid,
    pose: Pose,
    cfg: RenderConfig,
    i: int,
    j: int,
    si: ColumnSlice,
    sj: ColumnSlice,
)
    requires
        cfg.wf(),
        column_slice_ok(grid, pose, cfg, i, si),
        column_slice_ok(grid, pose, cfg, j, sj),
        sj.depth.lt_spec(si.depth),
    ensures
        si.height.num * sj.height.den < sj.height.num * si.height.den,
{
    lemma_height_monotone(cfg.screen_h as int, si.depth, sj.depth);
}

/// Every rendered slice is vertically centered on the horizon:
/// `top + height/2 == screen_h/2` as rationals.
pub proof fn lemma_slice_is_centered(
    grid: Grid,
    pose: Pose,
    cfg: RenderConfig,
    i: int,
    s: ColumnSlice,
)
    requires
        cfg.wf(),
        column_slice_ok(grid, pose, cfg, i, s),
    ensures
        2 * s.top.num * s.height.den + s.height.num * s.top.den == cfg.screen_h * (s.top.den
            * s.height.den),
{
    lemma_slice_centered(cfg.screen_h as int, s.depth, s.top, s.height);
}

/// The slices tile the screen exactly: the first column starts at zero, each
/// column ends where the next begins (`x_i + width == x_{i+1}` as
/// rationals), and the last column ends at the full screen width — no gaps
/// and no overlaps.
pub proof fn lemma_columns_partition(
    grid: Grid,
    pose: Pose,
    cfg: RenderConfig,
    slices: Seq<ColumnSlice>,
    i: int,
)
    requires
        cfg.wf(),
        slices.len() == cfg.resolution,
        forall|j: int|
            0 <= j < slices.len() ==> #[trigger] column_slice_ok(grid, pose, cfg, j, slices[j]),
        0 <= i < slices.len(),
    ensures
        slices[0].x.num == 0,
        i < slices.len() - 1 ==> (slices[i].x.num * slices[i].width.den + slices[i].width.num
            * slices[i].x.den) * slices[i + 1].x.den == slices[i + 1].x.num * (slices[i].x.den
            * slices[i].width.den),
        i == slices.len() - 1 ==> slices[i].x.num * slices[i].width.den + slices[i].width.num
            * slices[i].x.den == cfg.screen_w * (slices[i].x.den * slices[i].width.den),
{
    let res = cfg.resolution as int;
    let w = cfg.screen_w as int;
    assert(column_slice_ok(grid, pose, cfg, 0, slices[0]));
    assert(column_slice_ok(grid, pose, cfg, i, slices[i]));
    if i < slices.len() - 1 {
        assert(column_slice_ok(grid, pose, cfg, i + 1, slices[i + 1]));
        assert((w * i * res + w * res) * res == (w * (i + 1)) * (res * res)) by (nonlinear_arith);
    } else {
        assert(w * i * res + w * res == w * (res * res)) by (nonlinear_arith)
            requires
                i == res - 1,
        ;
    }
}

} // verus!
