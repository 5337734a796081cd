//! Ray casting, grid construction and movement scenarios.

use raycaster::cast::single_cast;
use raycaster::frac::{Frac, Vec2q};
use raycaster::grid::{Grid, GridError};
use raycaster::motion::{update_pose, rotate_vec, InputState, Pose};

/// A `side`-by-`side` grid of walls around an empty interior.
fn open_box(side: usize) -> Grid {
    let mut cells = Vec::new();
    for y in 0..side {
        for x in 0..side {
            let border = x == 0 || y == 0 || x == side - 1 || y == side - 1;
            cells.push(if border { 1u8 } else { 0u8 });
        }
    }
    Grid::new(side, cells).unwrap()
}

fn idle() -> InputState {
    InputState { forward: false, back: false, left: false, right: false, strafe: false }
}

#[test]
fn cast_center_straight_up() {
    // 5x5 walls around an empty 3x3 interior; player at the center (2.5, 2.5)
    // facing (0, 1): the first wall is the border cell (2, 4), 1.5 units away.
    let grid = open_box(5);
    let pos = Vec2q::new(5, 5, 2);
    let hit = single_cast(&grid, pos, 0, 1);
    assert_eq!(hit.tile, 1);
    assert_eq!(hit.cell_x, 2);
    assert_eq!(hit.cell_y, 4);
    assert!(hit.side_y);
    assert_eq!(hit.depth.num, 3);
    assert_eq!(hit.depth.den, 2);
    assert!(hit.depth.eq_frac(Frac::new(3, 2)));
}

#[test]
fn cast_axis_aligned_all_directions() {
    let grid = open_box(5);
    let pos = Vec2q::new(5, 5, 2);
    let down = single_cast(&grid, pos, 0, -1);
    assert_eq!((down.cell_x, down.cell_y), (2, 0));
    assert!(down.depth.eq_frac(Frac::new(3, 2)));
    let right = single_cast(&grid, pos, 1, 0);
    assert_eq!((right.cell_x, right.cell_y), (4, 2));
    assert!(!right.side_y);
    assert!(right.depth.eq_frac(Frac::new(3, 2)));
    let left = single_cast(&grid, pos, -1, 0);
    assert_eq!((left.cell_x, left.cell_y), (0, 2));
    assert!(left.depth.eq_frac(Frac::new(3, 2)));
}

#[test]
fn cast_tie_breaks_to_y_axis() {
    // From the exact cell center along (1, 1) both axes reach their crossings
    // together twice; the tie must advance Y, so the hit is (3, 4), not (4, 3).
    let grid = open_box(5);
    let pos = Vec2q::new(5, 5, 2);
    let hit = single_cast(&grid, pos, 1, 1);
    assert_eq!((hit.cell_x, hit.cell_y), (3, 4));
    assert!(hit.side_y);
    assert!(hit.depth.eq_frac(Frac::new(3, 2)));
}

#[test]
fn cast_stops_at_first_wall() {
    // An interior wall in front of the border: the nearer one wins.
    let mut cells = vec![0u8; 25];
    for i in 0..5 {
        cells[i] = 1;
        cells[20 + i] = 1;
        cells[5 * i] = 1;
        cells[5 * i + 4] = 1;
    }
    cells[3 * 5 + 2] = 3; // cell (2, 3)
    let grid = Grid::new(5, cells).unwrap();
    let pos = Vec2q::new(5, 5, 2);
    let hit = single_cast(&grid, pos, 0, 1);
    assert_eq!(hit.tile, 3);
    assert_eq!((hit.cell_x, hit.cell_y), (2, 3));
    assert!(hit.depth.eq_frac(Frac::new(1, 2)));
}

#[test]
fn cast_origin_on_grid_line_gives_zero_depth() {
    // Origin exactly on the grid line next to a wall, looking into it: the
    // hit is immediate and the raw depth is exactly zero.
    let mut cells = vec![0u8; 25];
    for i in 0..5 {
        cells[i] = 1;
        cells[20 + i] = 1;
        cells[5 * i] = 1;
        cells[5 * i + 4] = 1;
    }
    cells[2 * 5 + 1] = 2; // cell (1, 2)
    let grid = Grid::new(5, cells).unwrap();
    let pos = Vec2q::new(4, 5, 2); // (2.0, 2.5)
    let hit = single_cast(&grid, pos, -1, 0);
    assert_eq!(hit.tile, 2);
    assert_eq!((hit.cell_x, hit.cell_y), (1, 2));
    assert_eq!(hit.depth.num, 0);
}

#[test]
fn grid_rejects_each_malformed_input() {
    assert_eq!(Grid::new(2, vec![1; 4]).unwrap_err(), GridError::SideTooSmall);
    assert_eq!(Grid::new(300, vec![1; 9]).unwrap_err(), GridError::SideTooLarge);
    assert_eq!(Grid::new(3, vec![1; 8]).unwrap_err(), GridError::WrongCellCount);
    let mut bad_tile = vec![1u8; 9];
    bad_tile[4] = 6;
    assert_eq!(Grid::new(3, bad_tile).unwrap_err(), GridError::BadTile);
    let mut open_border = vec![1u8; 9];
    open_border[0] = 0;
    assert_eq!(Grid::new(3, open_border).unwrap_err(), GridError::OpenBorder);
    assert!(Grid::new(3, vec![1; 9]).is_ok());
}

#[test]
fn toggle_follows_the_clock() {
    let mut grid = open_box(5);
    grid.apply_toggle(2, 2, 4, 250);
    assert_eq!(grid.at(2, 2), 0);
    grid.apply_toggle(2, 2, 4, 750);
    assert_eq!(grid.at(2, 2), 4);
    grid.apply_toggle(2, 2, 4, 0);
    assert_eq!(grid.at(2, 2), 4); // the exact tick is closed
    grid.apply_toggle(2, 2, 4, 1250);
    assert_eq!(grid.at(2, 2), 0);
    // A neighboring cell never moves.
    assert_eq!(grid.at(1, 2), 0);
    assert_eq!(grid.at(0, 2), 1);
}

#[test]
fn toggle_takes_both_values_over_a_window() {
    // Sampled densely across several seconds the cell must be seen both open
    // and closed.
    let mut grid = open_box(5);
    let mut saw_open = false;
    let mut saw_closed = false;
    let mut ms: u64 = 0;
    while ms < 5000 {
        grid.apply_toggle(2, 2, 4, ms);
        match grid.at(2, 2) {
            0 => saw_open = true,
            4 => saw_closed = true,
            other => panic!("toggle cell held unexpected tile {}", other),
        }
        ms += 137;
    }
    assert!(saw_open && saw_closed);
}

#[test]
fn movement_forward_advances_along_facing() {
    // facing (1, 0), speed 5, dt 0.1: one forward frame advances by (0.5, 0).
    let pose = Pose { pos: Vec2q::new(0, 0, 1), dir: Vec2q::new(1, 0, 1) };
    let step = Frac::new(1, 2);
    let turn = Vec2q::new(1, 0, 1);
    let input = InputState { forward: true, ..idle() };
    let moved = update_pose(&pose, input, step, turn);
    assert!(Frac::new(moved.pos.xn, moved.pos.den).eq_frac(Frac::new(1, 2)));
    assert_eq!(moved.pos.yn, 0);
    assert_eq!(moved.dir, pose.dir);
}

#[test]
fn movement_strafe_right_advances_along_perpendicular() {
    // Same step with the strafe modifier and right held: (0, 0.5).
    let pose = Pose { pos: Vec2q::new(0, 0, 1), dir: Vec2q::new(1, 0, 1) };
    let step = Frac::new(1, 2);
    let turn = Vec2q::new(1, 0, 1);
    let input = InputState { right: true, strafe: true, ..idle() };
    let moved = update_pose(&pose, input, step, turn);
    assert_eq!(moved.pos.xn, 0);
    assert!(Frac::new(moved.pos.yn, moved.pos.den).eq_frac(Frac::new(1, 2)));
}

#[test]
fn movement_back_retreats_and_forward_wins_over_back() {
    let pose = Pose { pos: Vec2q::new(0, 0, 1), dir: Vec2q::new(1, 0, 1) };
    let step = Frac::new(1, 2);
    let turn = Vec2q::new(1, 0, 1);
    let back = update_pose(&pose, InputState { back: true, ..idle() }, step, turn);
    assert!(Frac::new(back.pos.xn, back.pos.den).eq_frac(Frac::new(-1, 2)));
    let both = update_pose(
        &pose,
        InputState { forward: true, back: true, ..idle() },
        step,
        turn,
    );
    assert!(Frac::new(both.pos.xn, both.pos.den).eq_frac(Frac::new(1, 2)));
}

#[test]
fn movement_turns_by_the_rotation_vector() {
    // A quarter turn: right rotates (1,0) to (0,1), left to (0,-1).
    let pose = Pose { pos: Vec2q::new(0, 0, 1), dir: Vec2q::new(1, 0, 1) };
    let step = Frac::new(0, 1);
    let quarter = Vec2q::new(0, 1, 1);
    let right = update_pose(&pose, InputState { right: true, ..idle() }, step, quarter);
    assert_eq!((right.dir.xn, right.dir.yn, right.dir.den), (0, 1, 1));
    let left = update_pose(&pose, InputState { left: true, ..idle() }, step, quarter);
    assert_eq!((left.dir.xn, left.dir.yn, left.dir.den), (0, -1, 1));
    assert_eq!(right.pos, pose.pos);
}

#[test]
fn movement_idle_frame_changes_nothing() {
    let pose = Pose { pos: Vec2q::new(7, -3, 4), dir: Vec2q::new(3, 4, 5) };
    let moved = update_pose(&pose, idle(), Frac::new(1, 2), Vec2q::new(0, 1, 1));
    assert_eq!(moved.pos, pose.pos);
    assert_eq!(moved.dir, pose.dir);
}

#[test]
fn rotation_preserves_squared_magnitude() {
    let d = Vec2q::new(3, 4, 5);
    let r = Vec2q::new(0, 1, 1);
    let out = rotate_vec(d, r);
    assert_eq!((out.xn, out.yn, out.den), (-4, 3, 5));
    assert_eq!(out.xn * out.xn + out.yn * out.yn, d.xn * d.xn + d.yn * d.yn);
}
