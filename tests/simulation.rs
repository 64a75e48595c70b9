use breakout::arena::{
    brick_grid, wall, walls, Brick, WallLocation, BRICK_COLUMNS, BRICK_ROWS, PADDLE_MAX_X,
    PADDLE_MIN_X, PADDLE_Y,
};
use breakout::collision::{bounce_off, collide, reflect, Collision};
use breakout::geometry::{displacement_of, Aabb, Point};
use breakout::world::{direction, World};

fn boxed(x: i64, y: i64, hx: i64, hy: i64) -> Aabb {
    Aabb { center: Point { x, y }, half: Point { x: hx, y: hy } }
}

fn ball_at(x: i64, y: i64) -> Aabb {
    boxed(x, y, 15_000, 15_000)
}

fn left_wall() -> Aabb {
    boxed(-450_000, 0, 10_000, 310_000)
}

fn bare_world(ball: Aabb, velocity: Point) -> World {
    World {
        paddle: boxed(0, PADDLE_Y, 60_000, 10_000),
        ball,
        velocity,
        walls: Vec::new(),
        bricks: Vec::new(),
    }
}

#[test]
fn left_wall_bounce() {
    let ball = ball_at(-440_000, 0);
    let mut world = bare_world(ball, Point { x: -100_000, y: 0 });
    world.walls.push(left_wall());
    assert_eq!(collide(ball, left_wall()), Some(Collision::Right));
    let removed = world.check_collisions();
    assert!(removed.is_empty());
    assert_eq!(world.velocity, Point { x: 100_000, y: 0 });
    assert_eq!(world.ball, ball);
}

#[test]
fn departing_contact_is_a_no_op() {
    let ball = ball_at(-440_000, 0);
    let mut world = bare_world(ball, Point { x: 50_000, y: 0 });
    world.walls.push(left_wall());
    world.check_collisions();
    assert_eq!(world.velocity, Point { x: 50_000, y: 0 });
    assert_eq!(reflect(Point { x: 50_000, y: 0 }, Collision::Right), Point { x: 50_000, y: 0 });
}

#[test]
fn paddle_stays_between_the_walls() {
    let mut world = World::startup();
    for _ in 0..100 {
        world.move_paddle(-1, 50_000);
        assert!(PADDLE_MIN_X <= world.paddle.center.x && world.paddle.center.x <= PADDLE_MAX_X);
    }
    assert_eq!(world.paddle.center.x, PADDLE_MIN_X);
    world.move_paddle(1, u64::MAX);
    assert_eq!(world.paddle.center.x, PADDLE_MAX_X);
    assert_eq!(PADDLE_MIN_X, -380_000);
    assert_eq!(PADDLE_MAX_X, 380_000);
}

#[test]
fn paddle_moves_by_speed_times_time() {
    let mut world = World::startup();
    world.move_paddle(1, 100_000);
    assert_eq!(world.paddle.center.x, 50_000);
    world.move_paddle(-1, 40_000);
    assert_eq!(world.paddle.center.x, 30_000);
    world.move_paddle(0, 1_000_000);
    assert_eq!(world.paddle.center.x, 30_000);
    assert_eq!(world.paddle.center.y, PADDLE_Y);
}

#[test]
fn both_keys_cancel() {
    assert_eq!(direction(true, true), 0);
    assert_eq!(direction(false, false), 0);
    assert_eq!(direction(true, false), -1);
    assert_eq!(direction(false, true), 1);
}

#[test]
fn reflection_keeps_speed() {
    let v = Point { x: 282_843, y: -282_843 };
    let sides = [Collision::Left, Collision::Right, Collision::Top, Collision::Bottom, Collision::Inside];
    for c in sides {
        let r = reflect(v, c);
        assert_eq!(r.x.abs(), v.x.abs());
        assert_eq!(r.y.abs(), v.y.abs());
    }
    assert_eq!(reflect(v, Collision::Left), Point { x: -282_843, y: -282_843 });
    assert_eq!(reflect(v, Collision::Top), Point { x: 282_843, y: 282_843 });
    assert_eq!(reflect(v, Collision::Right), v);
    assert_eq!(reflect(v, Collision::Bottom), v);
    assert_eq!(reflect(v, Collision::Inside), v);
}

#[test]
fn tick_keeps_speed_through_a_corner() {
    let mut world = World::startup();
    world.ball = ball_at(-432_000, 292_000);
    world.velocity = Point { x: -200_000, y: 300_000 };
    world.tick(0, 10_000);
    let v = world.velocity;
    assert_eq!(v.x.abs(), 200_000);
    assert_eq!(v.y.abs(), 300_000);
}

#[test]
fn brick_is_removed_once() {
    let brick = Brick { id: 7, bounds: boxed(0, 100_000, 65_000, 15_000) };
    let mut world = bare_world(ball_at(0, 80_000), Point { x: 0, y: 1_000 });
    world.bricks.push(brick);
    world.bricks.push(Brick { id: 8, bounds: boxed(300_000, 100_000, 65_000, 15_000) });
    let first = world.tick(0, 0);
    assert_eq!(first, vec![brick]);
    assert_eq!(world.bricks.len(), 1);
    assert_eq!(world.bricks[0].id, 8);
    assert_eq!(world.velocity, Point { x: 0, y: -1_000 });
    let second = world.tick(0, 0);
    assert!(second.is_empty());
    assert_eq!(world.bricks.len(), 1);
}

#[test]
fn grid_layout_is_fixed() {
    let a = brick_grid();
    let b = brick_grid();
    assert_eq!(a, b);
    assert_eq!(a.len(), 12);
    assert_eq!(BRICK_COLUMNS, 6);
    assert_eq!(BRICK_ROWS, 2);
    assert_eq!(a[0].bounds.center, Point { x: -350_000, y: 235_000 });
    assert_eq!(a[5].bounds.center, Point { x: 300_000, y: 235_000 });
    assert_eq!(a[6].bounds.center, Point { x: -350_000, y: 205_000 });
    assert_eq!(a[11].bounds.center, Point { x: 300_000, y: 205_000 });
    for (i, brick) in a.iter().enumerate() {
        assert_eq!(brick.id, i as u64);
        assert_eq!(brick.bounds.half, Point { x: 65_000, y: 15_000 });
    }
}

#[test]
fn startup_builds_the_session() {
    let world = World::startup();
    assert_eq!(world.paddle, boxed(0, -240_000, 60_000, 10_000));
    assert_eq!(world.ball, ball_at(0, -50_000));
    assert_eq!(world.velocity, Point { x: 282_843, y: -282_843 });
    assert_eq!(world.walls, walls());
    assert_eq!(world.bricks, brick_grid());
}

#[test]
fn wall_boxes() {
    assert_eq!(wall(WallLocation::Top), boxed(0, 300_000, 460_000, 10_000));
    assert_eq!(wall(WallLocation::Bottom), boxed(0, -300_000, 460_000, 10_000));
    assert_eq!(wall(WallLocation::Left), boxed(-450_000, 0, 10_000, 310_000));
    assert_eq!(wall(WallLocation::Right), boxed(450_000, 0, 10_000, 310_000));
    assert_eq!(
        walls(),
        vec![
            wall(WallLocation::Right),
            wall(WallLocation::Left),
            wall(WallLocation::Top),
            wall(WallLocation::Bottom)
        ]
    );
}

#[test]
fn collision_sides() {
    let block = boxed(0, 0, 65_000, 15_000);
    assert_eq!(collide(ball_at(-75_000, 0), block), Some(Collision::Left));
    assert_eq!(collide(ball_at(75_000, 0), block), Some(Collision::Right));
    assert_eq!(collide(ball_at(0, 25_000), block), Some(Collision::Top));
    assert_eq!(collide(ball_at(0, -25_000), block), Some(Collision::Bottom));
    assert_eq!(collide(boxed(0, 0, 5_000, 5_000), block), Some(Collision::Inside));
    assert_eq!(collide(ball_at(0, 100_000), block), None);
}

#[test]
fn corner_contact_picks_the_shallower_penetration() {
    let block = boxed(0, 0, 65_000, 15_000);
    // 5 horizontally against 10 vertically.
    assert_eq!(collide(ball_at(-75_000, 20_000), block), Some(Collision::Left));
    // 25 horizontally against 5 vertically.
    assert_eq!(collide(ball_at(-55_000, 25_000), block), Some(Collision::Top));
    // 13 horizontally against 3 vertically.
    assert_eq!(collide(ball_at(-67_000, 27_000), block), Some(Collision::Top));
    // 5 against 5: a tie goes to the horizontal side.
    assert_eq!(collide(ball_at(-75_000, 25_000), block), Some(Collision::Left));
}

#[test]
fn corner_hit_on_a_brick_reflects_off_the_top() {
    // 10 horizontally against 5 vertically: the top face.
    let mut world = bare_world(ball_at(-70_000, 25_000), Point { x: 100_000, y: -100_000 });
    world.bricks.push(Brick { id: 1, bounds: boxed(0, 0, 65_000, 15_000) });
    let removed = world.check_collisions();
    assert_eq!(removed.len(), 1);
    assert_eq!(world.velocity, Point { x: 100_000, y: 100_000 });
}

#[test]
fn corner_depths_are_relative_to_the_ball() {
    let block = boxed(0, 0, 65_000, 15_000);
    // 12 of the ball's 30 horizontally against 5 of its 10 vertically.
    let ball = boxed(-83_000, 20_000, 30_000, 10_000);
    assert_eq!(collide(ball, block), Some(Collision::Left));
}

#[test]
fn touching_edges_is_no_collision() {
    let block = boxed(0, 0, 65_000, 15_000);
    assert_eq!(collide(ball_at(-80_000, 0), block), None);
    assert_eq!(collide(ball_at(0, 30_000), block), None);
    let v = Point { x: 100, y: -100 };
    assert_eq!(bounce_off(ball_at(-80_000, 0), v, block), v);
}

#[test]
fn zero_dt_is_no_motion() {
    let mut world = World::startup();
    let before = world.ball;
    assert!(world.can_advance_ball(0));
    let removed = world.tick(1, 0);
    assert!(removed.is_empty());
    assert_eq!(world.ball, before);
    assert_eq!(world.paddle.center.x, 0);
    assert_eq!(world.velocity, Point { x: 282_843, y: -282_843 });
}

#[test]
fn ball_moves_by_velocity_times_time() {
    let mut world = World::startup();
    world.apply_velocity(16_666);
    assert_eq!(world.ball.center, Point { x: 4_713, y: -54_713 });
}

#[test]
fn displacement_rounds_toward_zero() {
    assert_eq!(displacement_of(282_843, 16_666), 4_713);
    assert_eq!(displacement_of(-282_843, 16_666), -4_713);
    assert_eq!(displacement_of(1, 999_999), 0);
    assert_eq!(displacement_of(-1, 999_999), 0);
    assert_eq!(displacement_of(i64::MIN, u64::MAX), -(((1u128 << 63) * (u64::MAX as u128) / 1_000_000) as i128));
}

#[test]
fn far_ball_cannot_advance() {
    let mut world = World::startup();
    world.ball.center.x = i64::MAX - 10;
    world.velocity = Point { x: 1_000_000, y: 0 };
    assert!(!world.can_advance_ball(1_000_000));
    assert!(world.can_advance_ball(5));
}

#[test]
fn brick_overlapped_for_many_ticks_is_removed_once() {
    let brick = Brick { id: 3, bounds: boxed(0, 0, 65_000, 15_000) };
    let mut world = bare_world(ball_at(0, 0), Point { x: 1_000, y: 0 });
    world.bricks.push(brick);
    let mut removed_ids: Vec<u64> = Vec::new();
    for _ in 0..10 {
        for b in world.tick(0, 1_000) {
            removed_ids.push(b.id);
        }
    }
    assert_eq!(removed_ids, vec![3]);
    assert!(world.bricks.is_empty());
}

#[test]
fn paddle_bounded_over_ticks() {
    let mut world = World::startup();
    for k in 0..40 {
        let d = if k < 20 { 1 } else { -1 };
        world.tick(d, 100_000);
        assert!(PADDLE_MIN_X <= world.paddle.center.x && world.paddle.center.x <= PADDLE_MAX_X);
    }
}
