//! Column rendering, slice geometry, palette, minimap and scene gating.

use raycaster::frac::{Frac, Vec2q};
use raycaster::grid::Grid;
use raycaster::minimap::{minimap_rects, player_marker};
use raycaster::motion::Pose;
use raycaster::render::{
    backdrop, render_columns, wall_color, wall_height, ConfigError, RenderConfig, Rgb,
};
use raycaster::scene::{Player, Scene};

fn open_box(side: usize) -> Grid {
    let mut cells = Vec::new();
    for y in 0..side {
        for x in 0..side {
            let border = x == 0 || y == 0 || x == side - 1 || y == side - 1;
            cells.push(if border { 1u8 } else { 0u8 });
        }
    }
    Grid::new(side, cells).unwrap()
}

fn center_pose() -> Pose {
    Pose { pos: Vec2q::new(5, 5, 2), dir: Vec2q::new(0, 1, 1) }
}

#[test]
fn render_emits_one_slice_per_column_without_gaps() {
    let grid = open_box(5);
    let pose = center_pose();
    let cfg = RenderConfig::new(4, 640, 480).unwrap();
    let slices = render_columns(&grid, &pose, &cfg);
    assert_eq!(slices.len(), 4);
    for (i, s) in slices.iter().enumerate() {
        assert_eq!(s.width.num, 640);
        assert_eq!(s.width.den, 4);
        assert_eq!(s.x.num, 640 * i as i64);
        assert_eq!(s.x.den, 4);
    }
    // Each slice ends exactly where the next begins.
    for i in 0..3 {
        let end = Frac::new(slices[i].x.num + slices[i].width.num, 4);
        assert!(end.eq_frac(slices[i + 1].x));
    }
    let last_end = Frac::new(slices[3].x.num + slices[3].width.num, 4);
    assert!(last_end.eq_frac(Frac::new(640, 1)));
}

#[test]
fn render_flat_wall_has_uniform_perpendicular_depth() {
    // A wall square ahead: every column's perpendicular depth is the same
    // 1.5 units even though the edge rays travel farther — the planar
    // projection, not the radial one.
    let grid = open_box(5);
    let pose = center_pose();
    let cfg = RenderConfig::new(4, 640, 480).unwrap();
    let slices = render_columns(&grid, &pose, &cfg);
    for s in slices.iter() {
        assert_eq!(s.hit.tile, 1);
        assert!(s.depth.eq_frac(Frac::new(3, 2)));
    }
}

#[test]
fn render_center_column_geometry() {
    let grid = open_box(5);
    let pose = center_pose();
    let cfg = RenderConfig::new(4, 640, 480).unwrap();
    let slices = render_columns(&grid, &pose, &cfg);
    let s = &slices[2];
    assert_eq!((s.hit.cell_x, s.hit.cell_y), (2, 4));
    // height = 480 / 1.5 = 320, top = 240 - 160 = 80, centered on 240.
    assert!(s.height.eq_frac(Frac::new(320, 1)));
    assert!(s.top.eq_frac(Frac::new(80, 1)));
    let half_height = Frac::new(s.height.num, s.height.den * 2);
    let center = Frac::new(
        s.top.num * half_height.den + half_height.num * s.top.den,
        s.top.den * half_height.den,
    );
    assert!(center.eq_frac(Frac::new(240, 1)));
    assert_eq!(s.color, Rgb { r: 99, g: 98, b: 0 });
}

#[test]
fn wall_height_exact_values() {
    let (top, height) = wall_height(Frac::new(2, 1), 480);
    assert!(height.eq_frac(Frac::new(240, 1)));
    assert!(top.eq_frac(Frac::new(120, 1)));
    // Nearer than one unit: the slice overflows the screen, top is negative.
    let (top2, height2) = wall_height(Frac::new(1, 2), 480);
    assert!(height2.eq_frac(Frac::new(960, 1)));
    assert!(top2.eq_frac(Frac::new(-240, 1)));
}

#[test]
fn config_rejects_each_malformed_input() {
    assert_eq!(RenderConfig::new(0, 640, 480).unwrap_err(), ConfigError::ZeroResolution);
    assert_eq!(RenderConfig::new(5000, 640, 480).unwrap_err(), ConfigError::ResolutionTooLarge);
    assert_eq!(RenderConfig::new(256, 0, 480).unwrap_err(), ConfigError::ScreenTooSmall);
    assert_eq!(RenderConfig::new(256, 640, -1).unwrap_err(), ConfigError::ScreenTooSmall);
    assert_eq!(RenderConfig::new(256, 20000, 480).unwrap_err(), ConfigError::ScreenTooLarge);
    assert!(RenderConfig::new(256, 640, 480).is_ok());
}

#[test]
fn palette_matches_the_materials() {
    assert_eq!(wall_color(1), Rgb { r: 99, g: 98, b: 0 });
    assert_eq!(wall_color(2), Rgb { r: 0, g: 89, b: 19 });
    assert_eq!(wall_color(3), Rgb { r: 0, g: 47, b: 95 });
    assert_eq!(wall_color(4), Rgb { r: 100, g: 43, b: 76 });
    assert_eq!(wall_color(5), Rgb { r: 100, g: 63, b: 0 });
    assert_eq!(wall_color(0), Rgb { r: 0, g: 0, b: 0 });
    assert_eq!(wall_color(9), Rgb { r: 0, g: 0, b: 0 });
}

#[test]
fn backdrop_covers_both_half_screens() {
    let cfg = RenderConfig::new(4, 640, 480).unwrap();
    let (sky, floor) = backdrop(&cfg);
    assert_eq!((sky.x, sky.w), (0, 640));
    assert!(sky.y.eq_frac(Frac::new(0, 1)));
    assert!(sky.h.eq_frac(Frac::new(240, 1)));
    assert_eq!(sky.color, Rgb { r: 0, g: 47, b: 95 });
    assert!(floor.y.eq_frac(Frac::new(240, 1)));
    assert!(floor.h.eq_frac(Frac::new(240, 1)));
    assert_eq!(floor.color, Rgb { r: 0, g: 0, b: 0 });
}

#[test]
fn minimap_draws_every_cell_at_scale() {
    let grid = open_box(3);
    let rects = minimap_rects(&grid, 5);
    assert_eq!(rects.len(), 9);
    // Row-major: rect 4 is the empty center cell (1, 1).
    assert_eq!((rects[4].x, rects[4].y, rects[4].size), (5, 5, 5));
    assert_eq!(rects[4].color, Rgb { r: 0, g: 0, b: 0 });
    assert_eq!((rects[0].x, rects[0].y), (0, 0));
    assert_eq!(rects[0].color, Rgb { r: 99, g: 98, b: 0 });
    assert_eq!((rects[5].x, rects[5].y), (10, 5));
}

#[test]
fn player_marker_geometry() {
    let pose = center_pose();
    let m = player_marker(&pose, 4);
    assert!(m.cx.eq_frac(Frac::new(10, 1)));
    assert!(m.cy.eq_frac(Frac::new(10, 1)));
    assert!(m.radius.eq_frac(Frac::new(2, 1)));
    assert!(m.thickness.eq_frac(Frac::new(2, 3)));
    // The heading segment points 20 scales along the facing (0, 1).
    assert!(m.tip_x.eq_frac(Frac::new(10, 1)));
    assert!(m.tip_y.eq_frac(Frac::new(90, 1)));
}

#[test]
fn inactive_entities_are_skipped_entirely() {
    let cfg = RenderConfig::new(4, 640, 480).unwrap();
    let scene = Scene {
        grid: open_box(5),
        grid_active: false,
        player: Player { pose: center_pose(), active: true },
    };
    assert_eq!(scene.render(&cfg).len(), 0);
    assert_eq!(scene.minimap(5).len(), 0);
    assert!(scene.marker(5).is_some());

    let scene2 = Scene {
        grid: open_box(5),
        grid_active: true,
        player: Player { pose: center_pose(), active: false },
    };
    assert_eq!(scene2.render(&cfg).len(), 0);
    assert!(scene2.marker(5).is_none());
    assert_eq!(scene2.minimap(5).len(), 25);

    let scene3 = Scene {
        grid: open_box(5),
        grid_active: true,
        player: Player { pose: center_pose(), active: true },
    };
    assert_eq!(scene3.render(&cfg).len(), 4);
}

#[test]
fn scene_toggle_is_gated_by_the_grid_flag() {
    let mut scene = Scene {
        grid: open_box(5),
        grid_active: false,
        player: Player { pose: center_pose(), active: true },
    };
    scene.tick_toggle(2, 2, 4, 1750);
    assert_eq!(scene.grid.at(2, 2), 0);
    scene.grid_active = true;
    scene.tick_toggle(2, 2, 4, 1750);
    assert_eq!(scene.grid.at(2, 2), 4);
    scene.tick_toggle(2, 2, 4, 2250);
    assert_eq!(scene.grid.at(2, 2), 0);
}
