//! The entity store and the per-tick pipeline: paddle update, ball
//! integration, then collision resolution and brick removal.
use vstd::prelude::*;
use crate::arena::{
    Brick, BALL_HALF_SIZE, BALL_START_SPEED_COMPONENT, BALL_START_X, BALL_START_Y,
    PADDLE_HALF_LENGTH, PADDLE_HALF_WIDTH, PADDLE_MAX_X, PADDLE_MIN_X, PADDLE_SPEED, PADDLE_Y,
    brick_grid, brick_layout, grid_columns, grid_rows, wall_layout, walls,
};
use crate::collision::{
    bounce_all, bounce_off, collide, lemma_collisions_keep_speed, overlaps, speed_sq, velocity_ok,
};
use crate::geometry::{Aabb, Point, displacement, displacement_of};

verus! {

/// The state of a session as values: one paddle, one ball with its velocity,
/// the walls and the live bricks.
pub struct WorldView {
    pub paddle: Aabb,
    pub ball: Aabb,
    pub velocity: Point,
    pub walls: Seq<Aabb>,
    pub bricks: Seq<Brick>,
}

/// The entity store of a session.
pub struct World {
    pub paddle: Aabb,
    pub ball: Aabb,
    pub velocity: Point,
    pub walls: Vec<Aabb>,
    pub bricks: Vec<Brick>,
}

impl View for World {
    type V = WorldView;

    open spec fn view(&self) -> WorldView {
        WorldView {
            paddle: self.paddle,
            ball: self.ball,
            velocity: self.velocity,
            walls: self.walls@,
            bricks: self.bricks@,
        }
    }
}

/// No two bricks share an id.
pub open spec fn unique_ids(bricks: Seq<Brick>) -> bool {
    forall|i: int, j: int|
        0 <= i < bricks.len() && 0 <= j < bricks.len() && #[trigger] bricks[i].id
            == #[trigger] bricks[j].id ==> i == j
}

/// Every brick box is well formed and no two bricks share an id.
pub open spec fn bricks_ok(bricks: Seq<Brick>) -> bool {
    &&& forall|i: int| 0 <= i < bricks.len() ==> (#[trigger] bricks[i]).bounds.wf()
    &&& unique_ids(bricks)
}

impl WorldView {
    pub open spec fn wf(self) -> bool {
        &&& self.paddle.wf()
        &&& self.ball.wf()
        &&& velocity_ok(self.velocity)
        &&& forall|i: int| 0 <= i < self.walls.len() ==> (#[trigger] self.walls[i]).wf()
        &&& bricks_ok(self.bricks)
        &&& PADDLE_MIN_X <= self.paddle.center.x <= PADDLE_MAX_X
    }

    /// Every collider box in the order contacts are resolved: the walls, the
    /// paddle, then the bricks.
    pub open spec fn colliders(self) -> Seq<Aabb> {
        self.walls + seq![self.paddle] + self.bricks.map_values(|b: Brick| b.bounds)
    }
}

/// The state of a new session.
pub open spec fn initial_world() -> WorldView {
    WorldView {
        paddle: Aabb {
            center: Point { x: 0, y: PADDLE_Y },
            half: Point { x: PADDLE_HALF_LENGTH, y: PADDLE_HALF_WIDTH },
        },
        ball: Aabb {
            center: Point { x: BALL_START_X, y: BALL_START_Y },
            half: Point { x: BALL_HALF_SIZE, y: BALL_HALF_SIZE },
        },
        velocity: Point { x: BALL_START_SPEED_COMPONENT, y: (-BALL_START_SPEED_COMPONENT) as i64 },
        walls: wall_layout(),
        bricks: brick_layout(),
    }
}

pub open spec fn clamp(v: int, lo: int, hi: int) -> int {
    if v < lo {
        lo
    } else if v > hi {
        hi
    } else {
        v
    }
}

/// The paddle's x after moving in `direction` for `dt` microseconds, held
/// between the walls.
pub open spec fn paddle_step(x: int, direction: int, dt: int) -> int {
    clamp(x + displacement(direction * PADDLE_SPEED, dt), PADDLE_MIN_X as int, PADDLE_MAX_X as int)
}

/// The paddle's x after a sequence of `(direction, dt)` moves.
pub open spec fn paddle_run(x: int, moves: Seq<(int, int)>) -> int
    decreases moves.len(),
{
    if moves.len() == 0 {
        x
    } else {
        paddle_step(paddle_run(x, moves.drop_last()), moves.last().0, moves.last().1)
    }
}

pub open spec fn paddle_moved(w: WorldView, direction: int, dt: int) -> WorldView {
    WorldView {
        paddle: Aabb {
            center: Point {
                x: paddle_step(w.paddle.center.x as int, direction, dt) as i64,
                y: w.paddle.center.y,
            },
            half: w.paddle.half,
        },
        ..w
    }
}

/// The ball's center after `dt` microseconds still fits in the coordinate type.
pub open spec fn ball_fits(w: WorldView, dt: int) -> bool {
    &&& i64::MIN <= w.ball.center.x + displacement(w.velocity.x as int, dt) <= i64::MAX
    &&& i64::MIN <= w.ball.center.y + displacement(w.velocity.y as int, dt) <= i64::MAX
}

pub open spec fn ball_moved(w: WorldView, dt: int) -> WorldView {
    WorldView {
        ball: Aabb {
            center: Point {
                x: (w.ball.center.x + displacement(w.velocity.x as int, dt)) as i64,
                y: (w.ball.center.y + displacement(w.velocity.y as int, dt)) as i64,
            },
            half: w.ball.half,
        },
        ..w
    }
}

/// A brick that the ball box overlaps.
pub open spec fn hit_by(ball: Aabb) -> spec_fn(Brick) -> bool {
    |b: Brick| overlaps(ball, b.bounds)
}

/// A brick that the ball box does not overlap.
pub open spec fn missed_by(ball: Aabb) -> spec_fn(Brick) -> bool {
    |b: Brick| !overlaps(ball, b.bounds)
}

/// The state after every contact of the ball has been resolved in collider
/// order and every brick it overlaps has been removed.
pub open spec fn collisions_resolved(w: WorldView) -> WorldView {
    WorldView {
        velocity: bounce_all(w.ball, w.velocity, w.colliders()),
        bricks: w.bricks.filter(missed_by(w.ball)),
        ..w
    }
}

/// The bricks the ball overlaps, in store order.
pub open spec fn bricks_hit(w: WorldView) -> Seq<Brick> {
    w.bricks.filter(hit_by(w.ball))
}

/// The state after one tick with paddle input `direction` lasting `dt`
/// microseconds.
pub open spec fn after_tick(w: WorldView, direction: int, dt: int) -> WorldView {
    collisions_resolved(ball_moved(paddle_moved(w, direction, dt), dt))
}

/// The bricks removed by that tick.
pub open spec fn removed_in_tick(w: WorldView, direction: int, dt: int) -> Seq<Brick> {
    bricks_hit(ball_moved(paddle_moved(w, direction, dt), dt))
}

/// The signed paddle input: left counts -1 and right +1, so both cancel.
pub fn direction(left: bool, right: bool) -> (r: i8)
    ensures
        r == (if right { 1int } else { 0 }) - (if left { 1int } else { 0 }),
{
    let mut d: i8 = 0;
    if left {
        d = d - 1;
    }
    if right {
        d = d + 1;
    }
    d
}

proof fn lemma_bounce_all_append(ball: Aabb, v: Point, s: Seq<Aabb>, t: Seq<Aabb>)
    ensures
        bounce_all(ball, v, s + t) == bounce_all(ball, bounce_all(ball, v, s), t),
    decreases t.len(),
{
    if t.len() == 0 {
        assert(s + t =~= s);
    } else {
        assert((s + t).drop_last() =~= s + t.drop_last());
        lemma_bounce_all_append(ball, v, s, t.drop_last());
    }
}

proof fn lemma_filter_bricks(s: Seq<Brick>, p: spec_fn(Brick) -> bool)
    requires
        bricks_ok(s),
    ensures
        bricks_ok(s.filter(p)),
        forall|k: int| 0 <= k < s.filter(p).len() ==> s.contains(#[trigger] s.filter(p)[k]),
    decreases s.len(),
{
    reveal(Seq::filter);
    if s.len() > 0 {
        let d = s.drop_last();
        assert forall|i: int, j: int|
            0 <= i < d.len() && 0 <= j < d.len() && #[trigger] d[i].id == #[trigger] d[j].id
            implies i == j by {
            assert(s[i] == d[i] && s[j] == d[j]);
        }
        lemma_filter_bricks(d, p);
        let f = d.filter(p);
        assert forall|k: int| 0 <= k < f.len() implies s.contains(#[trigger] f[k]) by {
            let j = choose|j: int| 0 <= j < d.len() && d[j] == f[k];
            assert(s[j] == d[j]);
        }
        if p(s.last()) {
            let g = f.push(s.last());
            assert forall|k: int| 0 <= k < f.len() implies #[trigger] f[k].id != s.last().id by {
                let j = choose|j: int| 0 <= j < d.len() && d[j] == f[k];
                assert(s[j] == d[j]);
                assert(s[s.len() - 1] == s.last());
            }
            assert forall|i: int, j: int|
                0 <= i < g.len() && 0 <= j < g.len() && #[trigger] g[i].id == #[trigger] g[j].id
                implies i == j by {
                if i < f.len() && j < f.len() {
                    assert(g[i] == f[i] && g[j] == f[j]);
                } else if i < f.len() {
                    assert(g[i] == f[i]);
                } else if j < f.len() {
                    assert(g[j] == f[j]);
                }
            }
            assert forall|k: int| 0 <= k < g.len() implies s.contains(#[trigger] g[k]) by {
                if k < f.len() {
                    assert(g[k] == f[k]);
                } else {
                    assert(s[s.len() - 1] == g[k]);
                }
            }
            assert forall|k: int| 0 <= k < g.len() implies (#[trigger] g[k]).bounds.wf() by {
                if k < f.len() {
                    assert(g[k] == f[k]);
                } else {
                    assert(s[s.len() - 1] == g[k]);
                }
            }
        }
    }
}

impl World {
    /// Builds a new session: the paddle centered above the bottom wall, the
    /// ball at its starting point heading down and right, the four walls and
    /// the brick grid.
    pub fn startup() -> (r: World)
        ensures
            r@ == initial_world(),
            r@.wf(),
    {
        let bricks = brick_grid();
        let r = World {
            paddle: Aabb {
                center: Point { x: 0, y: PADDLE_Y },
                half: Point { x: PADDLE_HALF_LENGTH, y: PADDLE_HALF_WIDTH },
            },
            ball: Aabb {
                center: Point { x: BALL_START_X, y: BALL_START_Y },
                half: Point { x: BALL_HALF_SIZE, y: BALL_HALF_SIZE },
            },
            velocity: Point { x: BALL_START_SPEED_COMPONENT, y: -BALL_START_SPEED_COMPONENT },
            walls: walls(),
            bricks,
        };
        proof {
            lemma_grid_layout();
            assert(forall|i: int| 0 <= i < r.walls@.len() ==> (#[trigger] r.walls@[i]).wf()) by {
                assert(r.walls@ == wall_layout());
            }
        }
        r
    }

    /// Moves the paddle in `direction` (-1, 0 or 1) for `dt` microseconds,
    /// held between the walls.
    pub fn move_paddle(&mut self, direction: i8, dt: u64)
        requires
            old(self)@.wf(),
            -1 <= direction <= 1,
        ensures
            final(self)@ == paddle_moved(old(self)@, direction as int, dt as int),
            final(self)@.wf(),
    {
        let d = displacement_of(direction as i64 * PADDLE_SPEED, dt);
        let target: i128 = self.paddle.center.x as i128 + d;
        let x: i64 = if target < PADDLE_MIN_X as i128 {
            PADDLE_MIN_X
        } else if target > PADDLE_MAX_X as i128 {
            PADDLE_MAX_X
        } else {
            target as i64
        };
        self.paddle.center.x = x;
    }

    /// Whether the ball's new center after `dt` microseconds fits the
    /// coordinate type, which `apply_velocity` and `tick` require.
    pub fn can_advance_ball(&self, dt: u64) -> (r: bool)
        ensures
            r == ball_fits(self@, dt as int),
    {
        let x: i128 = self.ball.center.x as i128 + displacement_of(self.velocity.x, dt);
        let y: i128 = self.ball.center.y as i128 + displacement_of(self.velocity.y, dt);
        i64::MIN as i128 <= x && x <= i64::MAX as i128 && i64::MIN as i128 <= y && y
            <= i64::MAX as i128
    }

    /// Advances the ball by its velocity over `dt` microseconds.
    pub fn apply_velocity(&mut self, dt: u64)
        requires
            old(self)@.wf(),
            ball_fits(old(self)@, dt as int),
        ensures
            final(self)@ == ball_moved(old(self)@, dt as int),
            final(self)@.wf(),
    {
        let x: i128 = self.ball.center.x as i128 + displacement_of(self.velocity.x, dt);
        let y: i128 = self.ball.center.y as i128 + displacement_of(self.velocity.y, dt);
        self.ball.center.x = x as i64;
        self.ball.center.y = y as i64;
    }

    /// Resolves the ball's contact with every collider in turn, then removes
    /// each brick it overlaps; returns the removed bricks in store order.
    pub fn check_collisions(&mut self) -> (removed: Vec<Brick>)
        requires
            old(self)@.wf(),
        ensures
            final(self)@ == collisions_resolved(old(self)@),
            removed@ == bricks_hit(old(self)@),
            final(self)@.wf(),
    {
        let ghost w0 = self@;
        let ball = self.ball;
        let mut v = self.velocity;
        let mut i: usize = 0;
        while i < self.walls.len()
            invariant
                self@ == w0,
                w0.wf(),
                ball == w0.ball,
                i <= w0.walls.len(),
                velocity_ok(v),
                v == bounce_all(ball, w0.velocity, w0.walls.take(i as int)),
            decreases w0.walls.len() - i,
        {
            proof {
                assert(w0.walls.take(i + 1).drop_last() =~= w0.walls.take(i as int));
            }
            v = bounce_off(ball, v, self.walls[i]);
            i = i + 1;
        }
        assert(w0.walls.take(i as int) =~= w0.walls);
        let ghost head = w0.walls + seq![w0.paddle];
        proof {
            assert(head.drop_last() =~= w0.walls);
        }
        v = bounce_off(ball, v, self.paddle);
        let mut kept: Vec<Brick> = Vec::new();
        let mut removed: Vec<Brick> = Vec::new();
        let ghost boxes = w0.bricks.map_values(|b: Brick| b.bounds);
        let mut j: usize = 0;
        while j < self.bricks.len()
            invariant
                self@ == w0,
                w0.wf(),
                ball == w0.ball,
                boxes == w0.bricks.map_values(|b: Brick| b.bounds),
                j <= w0.bricks.len(),
                velocity_ok(v),
                v == bounce_all(ball, bounce_all(ball, w0.velocity, head), boxes.take(j as int)),
                kept@ == w0.bricks.take(j as int).filter(missed_by(ball)),
                removed@ == w0.bricks.take(j as int).filter(hit_by(ball)),
            decreases w0.bricks.len() - j,
        {
            let b = self.bricks[j];
            proof {
                reveal(Seq::filter);
                assert(w0.bricks.take(j + 1).drop_last() =~= w0.bricks.take(j as int));
                assert(boxes.take(j + 1).drop_last() =~= boxes.take(j as int));
                assert(w0.bricks.take(j + 1).last() == b);
            }
            assert(b.bounds.wf());
            v = bounce_off(ball, v, b.bounds);
            if collide(ball, b.bounds).is_some() {
                removed.push(b);
            } else {
                kept.push(b);
            }
            j = j + 1;
        }
        proof {
            assert(w0.bricks.take(j as int) =~= w0.bricks);
            assert(boxes.take(j as int) =~= boxes);
            lemma_bounce_all_append(ball, w0.velocity, head, boxes);
            assert(w0.colliders() == head + boxes);
            lemma_filter_bricks(w0.bricks, missed_by(ball));
        }
        self.velocity = v;
        self.bricks = kept;
        removed
    }

    /// One tick: moves the paddle, then the ball, then resolves collisions.
    /// Returns the bricks removed.
    pub fn tick(&mut self, direction: i8, dt: u64) -> (removed: Vec<Brick>)
        requires
            old(self)@.wf(),
            -1 <= direction <= 1,
            ball_fits(old(self)@, dt as int),
        ensures
            final(self)@ == after_tick(old(self)@, direction as int, dt as int),
            removed@ == removed_in_tick(old(self)@, direction as int, dt as int),
            final(self)@.wf(),
    {
        self.move_paddle(direction, dt);
        self.apply_velocity(dt);
        self.check_collisions()
    }
}

/// The brick grid has `grid_rows() * grid_columns()` well-formed bricks with
/// distinct ids.
pub proof fn lemma_grid_layout()
    ensures
        brick_layout().len() == grid_rows() * grid_columns(),
        bricks_ok(brick_layout()),
{
    assert(grid_columns() == 6);
    assert(grid_rows() == 2);
    let s = brick_layout();
    assert forall|i: int, j: int|
        0 <= i < s.len() && 0 <= j < s.len() && #[trigger] s[i].id == #[trigger] s[j].id
        implies i == j by {}
}

/// Whatever moves it is given, the paddle's center stays between its bounds.
pub proof fn lemma_paddle_stays_bounded(x: int, moves: Seq<(int, int)>)
    requires
        PADDLE_MIN_X <= x <= PADDLE_MAX_X,
    ensures
        PADDLE_MIN_X <= paddle_run(x, moves) <= PADDLE_MAX_X,
    decreases moves.len(),
{
    if moves.len() > 0 {
        lemma_paddle_stays_bounded(x, moves.drop_last());
    }
}

/// A tick never changes the ball's speed.
pub proof fn lemma_tick_keeps_speed(w: WorldView, direction: int, dt: int)
    requires
        w.wf(),
    ensures
        speed_sq(after_tick(w, direction, dt).velocity) == speed_sq(w.velocity),
{
    let m = ball_moved(paddle_moved(w, direction, dt), dt);
    lemma_collisions_keep_speed(m.ball, m.velocity, m.colliders());
}

/// The state after each `(direction, dt)` tick of `moves` in turn.
pub open spec fn run(w: WorldView, moves: Seq<(int, int)>) -> WorldView
    decreases moves.len(),
{
    if moves.len() == 0 {
        w
    } else {
        after_tick(run(w, moves.drop_last()), moves.last().0, moves.last().1)
    }
}

/// Ticks only ever remove bricks: every brick after a run was there before.
pub proof fn lemma_run_only_removes_bricks(w: WorldView, moves: Seq<(int, int)>)
    ensures
        forall|b: Brick| #[trigger] run(w, moves).bricks.contains(b) ==> w.bricks.contains(b),
    decreases moves.len(),
{
    if moves.len() > 0 {
        lemma_run_only_removes_bricks(w, moves.drop_last());
        let prev = run(w, moves.drop_last());
        let m = ball_moved(paddle_moved(prev, moves.last().0, moves.last().1), moves.last().1);
        assert forall|b: Brick| #[trigger] run(w, moves).bricks.contains(b) implies w.bricks.contains(
            b,
        ) by {
            m.bricks.lemma_filter_contains_rev(missed_by(m.ball), b);
            assert(prev.bricks.contains(b));
        }
    }
}

/// Over any run of ticks, the paddle's center stays between its bounds.
pub proof fn lemma_run_keeps_paddle_bounded(w: WorldView, moves: Seq<(int, int)>)
    requires
        PADDLE_MIN_X <= w.paddle.center.x <= PADDLE_MAX_X,
    ensures
        PADDLE_MIN_X <= run(w, moves).paddle.center.x <= PADDLE_MAX_X,
    decreases moves.len(),
{
    if moves.len() > 0 {
        lemma_run_keeps_paddle_bounded(w, moves.drop_last());
    }
}

/// A brick is removed at most once: after the tick that removes it, no later
/// tick, however many come between, removes a brick with its id.
pub proof fn lemma_brick_removed_once(
    w: WorldView,
    direction: int,
    dt: int,
    between: Seq<(int, int)>,
    later_direction: int,
    later_dt: int,
)
    requires
        w.wf(),
    ensures
        forall|a: Brick, b: Brick|
            #[trigger] removed_in_tick(w, direction, dt).contains(a) && #[trigger] removed_in_tick(
                run(after_tick(w, direction, dt), between),
                later_direction,
                later_dt,
            ).contains(b) ==> a.id != b.id,
{
    let m = ball_moved(paddle_moved(w, direction, dt), dt);
    let w1 = after_tick(w, direction, dt);
    let wn = run(w1, between);
    let mn = ball_moved(paddle_moved(wn, later_direction, later_dt), later_dt);
    lemma_run_only_removes_bricks(w1, between);
    assert forall|a: Brick, b: Brick|
        #[trigger] removed_in_tick(w, direction, dt).contains(a) && #[trigger] removed_in_tick(
            wn,
            later_direction,
            later_dt,
        ).contains(b) implies a.id != b.id by {
        broadcast use vstd::seq_lib::group_filter_ensures;

        let r1 = m.bricks.filter(hit_by(m.ball));
        let kept = m.bricks.filter(missed_by(m.ball));
        assert(w1.bricks == kept);
        m.bricks.lemma_filter_contains_rev(hit_by(m.ball), a);
        mn.bricks.lemma_filter_contains_rev(hit_by(mn.ball), b);
        assert(wn.bricks.contains(b));
        assert(kept.contains(b));
        m.bricks.lemma_filter_contains_rev(missed_by(m.ball), b);
        let ia = choose|k: int| 0 <= k < r1.len() && r1[k] == a;
        assert(hit_by(m.ball)(r1[ia]));
        let ib = choose|k: int| 0 <= k < kept.len() && kept[k] == b;
        assert(missed_by(m.ball)(kept[ib]));
        let sa = choose|k: int| 0 <= k < m.bricks.len() && m.bricks[k] == a;
        let sb = choose|k: int| 0 <= k < m.bricks.len() && m.bricks[k] == b;
        if a.id == b.id {
            assert(m.bricks[sa].id == m.bricks[sb].id);
        }
    }
}

} // verus!
