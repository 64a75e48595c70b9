//! The fixed play field: walls, paddle travel bounds and the brick grid, all
//! in sub-units (see `geometry::SCALE`).
use vstd::prelude::*;
use crate::geometry::{Aabb, Point};

verus! {

pub const WALL_WIDTH: i64 = 900_000;
pub const WALL_HEIGHT: i64 = 600_000;
pub const WALL_THICKNESS: i64 = 20_000;
/// The y coordinate of the bottom wall's center line.
pub const WALL_BOTTOM: i64 = -300_000;
/// The y coordinate of the top wall's center line.
pub const WALL_TOP: i64 = 300_000;
/// The x coordinate of the left wall's center line.
pub const WALL_LEFT: i64 = -450_000;
/// The x coordinate of the right wall's center line.
pub const WALL_RIGHT: i64 = 450_000;

pub const PADDLE_TO_WALL_BOTTOM: i64 = 60_000;
pub const PADDLE_LENGTH: i64 = 120_000;
pub const PADDLE_WIDTH: i64 = 20_000;
/// Paddle speed, in sub-units per second.
pub const PADDLE_SPEED: i64 = 500_000;
/// The paddle's fixed y coordinate.
pub const PADDLE_Y: i64 = WALL_BOTTOM + PADDLE_TO_WALL_BOTTOM;
/// The leftmost x the paddle's center may take: its edge touches the left wall.
pub const PADDLE_MIN_X: i64 = WALL_LEFT + WALL_HALF_THICKNESS + PADDLE_HALF_LENGTH;
/// The rightmost x the paddle's center may take: its edge touches the right wall.
pub const PADDLE_MAX_X: i64 = WALL_RIGHT - WALL_HALF_THICKNESS - PADDLE_HALF_LENGTH;
/// Half of `PADDLE_LENGTH`.
pub const PADDLE_HALF_LENGTH: i64 = 60_000;
/// Half of `PADDLE_WIDTH`.
pub const PADDLE_HALF_WIDTH: i64 = 10_000;

pub const BALL_START_X: i64 = 0;
pub const BALL_START_Y: i64 = -50_000;
pub const BALL_SIZE: i64 = 30_000;
/// Half of `BALL_SIZE`.
pub const BALL_HALF_SIZE: i64 = 15_000;
/// Each component of the starting velocity: 400 units per second along the
/// down-right diagonal, rounded to the nearest sub-unit.
pub const BALL_START_SPEED_COMPONENT: i64 = 282_843;

pub const BRICK_LENGTH: i64 = 130_000;
pub const BRICK_WIDTH: i64 = 30_000;
pub const BRICK_COUNT: i64 = 12;
pub const BRICK_PADDING: i64 = 15_000;
/// Bricks per row, `grid_columns()`.
pub const BRICK_COLUMNS: i64 = 6;
/// Rows of bricks, `grid_rows()`.
pub const BRICK_ROWS: i64 = 2;
/// The x from which the grid is laid out.
pub const GRID_START_X: i64 = WALL_LEFT + WALL_THICKNESS;
/// The y from which the grid is laid out.
pub const GRID_START_Y: i64 = WALL_TOP - WALL_THICKNESS;

/// Bricks per row: as many brick-plus-padding spans as fit between the walls.
pub open spec fn grid_columns() -> int {
    (WALL_WIDTH - WALL_THICKNESS) / (BRICK_LENGTH + BRICK_PADDING)
}

/// Rows: the requested count over the fractional number of spans per row,
/// rounded up.
pub open spec fn grid_rows() -> int {
    let usable = WALL_WIDTH - WALL_THICKNESS;
    (BRICK_COUNT * (BRICK_LENGTH + BRICK_PADDING) + usable - 1) / usable
}

/// Half of `WALL_THICKNESS`.
pub const WALL_HALF_THICKNESS: i64 = 10_000;
/// Half the length of the top and bottom walls, which close the corners.
pub const WALL_HALF_SPAN_X: i64 = 460_000;
/// Half the length of the left and right walls, which close the corners.
pub const WALL_HALF_SPAN_Y: i64 = 310_000;
/// Half of `BRICK_LENGTH`.
pub const BRICK_HALF_LENGTH: i64 = 65_000;
/// Half of `BRICK_WIDTH`.
pub const BRICK_HALF_WIDTH: i64 = 15_000;

/// Which of the four walls.
#[derive(Clone, Copy, Debug, PartialEq, Eq, Structural)]
pub enum WallLocation {
    Top,
    Bottom,
    Left,
    Right,
}

/// The box of a wall: centered on its edge line, as thick as `WALL_THICKNESS`
/// and long enough to close the corners.
pub open spec fn wall_box(location: WallLocation) -> Aabb {
    match location {
        WallLocation::Top => Aabb {
            center: Point { x: 0, y: WALL_TOP },
            half: Point { x: WALL_HALF_SPAN_X, y: WALL_HALF_THICKNESS },
        },
        WallLocation::Bottom => Aabb {
            center: Point { x: 0, y: WALL_BOTTOM },
            half: Point { x: WALL_HALF_SPAN_X, y: WALL_HALF_THICKNESS },
        },
        WallLocation::Left => Aabb {
            center: Point { x: WALL_LEFT, y: 0 },
            half: Point { x: WALL_HALF_THICKNESS, y: WALL_HALF_SPAN_Y },
        },
        WallLocation::Right => Aabb {
            center: Point { x: WALL_RIGHT, y: 0 },
            half: Point { x: WALL_HALF_THICKNESS, y: WALL_HALF_SPAN_Y },
        },
    }
}

/// The box of the wall at `location`.
pub fn wall(location: WallLocation) -> (r: Aabb)
    ensures
        r == wall_box(location),
        r.wf(),
{
    match location {
        WallLocation::Top => Aabb {
            center: Point { x: 0, y: WALL_TOP },
            half: Point { x: WALL_HALF_SPAN_X, y: WALL_HALF_THICKNESS },
        },
        WallLocation::Bottom => Aabb {
            center: Point { x: 0, y: WALL_BOTTOM },
            half: Point { x: WALL_HALF_SPAN_X, y: WALL_HALF_THICKNESS },
        },
        WallLocation::Left => Aabb {
            center: Point { x: WALL_LEFT, y: 0 },
            half: Point { x: WALL_HALF_THICKNESS, y: WALL_HALF_SPAN_Y },
        },
        WallLocation::Right => Aabb {
            center: Point { x: WALL_RIGHT, y: 0 },
            half: Point { x: WALL_HALF_THICKNESS, y: WALL_HALF_SPAN_Y },
        },
    }
}

/// The walls in the order the arena holds them.
pub open spec fn wall_layout() -> Seq<Aabb> {
    seq![
        wall_box(WallLocation::Right),
        wall_box(WallLocation::Left),
        wall_box(WallLocation::Top),
        wall_box(WallLocation::Bottom),
    ]
}

/// Builds the four walls.
pub fn walls() -> (r: Vec<Aabb>)
    ensures
        r@ == wall_layout(),
{
    let mut r: Vec<Aabb> = Vec::new();
    r.push(wall(WallLocation::Right));
    r.push(wall(WallLocation::Left));
    r.push(wall(WallLocation::Top));
    r.push(wall(WallLocation::Bottom));
    assert(r@ =~= wall_layout());
    r
}

/// A brick: an identity by which it is removed, and its box.
#[derive(Clone, Copy, Debug, PartialEq, Eq, Structural)]
pub struct Brick {
    pub id: u64,
    pub bounds: Aabb,
}

/// The box of the brick in `row` and `column` of the grid.
pub open spec fn brick_box(row: int, column: int) -> Aabb {
    Aabb {
        center: Point {
            x: (GRID_START_X + BRICK_LENGTH * column + BRICK_PADDING + BRICK_HALF_LENGTH) as i64,
            y: (GRID_START_Y - BRICK_WIDTH * row - BRICK_PADDING * 2 - BRICK_HALF_WIDTH) as i64,
        },
        half: Point { x: BRICK_HALF_LENGTH, y: BRICK_HALF_WIDTH },
    }
}

/// The grid row by row, left to right; each brick's id is its place in it.
pub open spec fn brick_layout() -> Seq<Brick> {
    Seq::new(
        (grid_rows() * grid_columns()) as nat,
        |i: int| Brick { id: i as u64, bounds: brick_box(i / grid_columns(), i % grid_columns()) },
    )
}

/// Builds the brick grid of a new session.
pub fn brick_grid() -> (r: Vec<Brick>)
    ensures
        r@ == brick_layout(),
{
    let n: u64 = (BRICK_ROWS * BRICK_COLUMNS) as u64;
    let columns: u64 = BRICK_COLUMNS as u64;
    assert(grid_columns() == BRICK_COLUMNS);
    assert(grid_rows() == BRICK_ROWS);
    let mut r: Vec<Brick> = Vec::new();
    let mut i: u64 = 0;
    while i < n
        invariant
            n == 12,
            columns == 6,
            i <= n,
            r@ =~= brick_layout().take(i as int),
        decreases n - i,
    {
        let row: u64 = i / columns;
        let column: u64 = i % columns;
        let x: i64 = GRID_START_X + BRICK_LENGTH * column as i64 + BRICK_PADDING + BRICK_HALF_LENGTH;
        let y: i64 = GRID_START_Y - BRICK_WIDTH * row as i64 - BRICK_PADDING * 2 - BRICK_HALF_WIDTH;
        let brick = Brick {
            id: i,
            bounds: Aabb {
                center: Point { x, y },
                half: Point { x: BRICK_HALF_LENGTH, y: BRICK_HALF_WIDTH },
            },
        };
        r.push(brick);
        i = i + 1;
        assert(r@ =~= brick_layout().take(i as int));
    }
    r
}

} // verus!
