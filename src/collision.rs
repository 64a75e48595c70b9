//! Classifying the ball's box against a collider's box, and the reflection
//! that a classified contact causes.
use vstd::prelude::*;
use crate::geometry::{Aabb, Point};

verus! {

/// The face of a collider that the ball touches, or `Inside` when the ball
/// straddles no single edge on either axis.
#[derive(Clone, Copy, Debug, PartialEq, Eq, Structural)]
pub enum Collision {
    Left,
    Right,
    Top,
    Bottom,
    Inside,
}

/// The open boxes `a` and `b` intersect.
pub open spec fn overlaps(a: Aabb, b: Aabb) -> bool {
    &&& a.min_x() < b.max_x()
    &&& a.max_x() > b.min_x()
    &&& a.min_y() < b.max_y()
    &&& a.max_y() > b.min_y()
}

/// The vertical edge of `b` that `a` straddles while its other edge lies
/// within `b`, if any.
pub open spec fn horizontal_side(a: Aabb, b: Aabb) -> Option<Collision> {
    if a.min_x() < b.min_x() && a.max_x() > b.min_x() && a.max_x() < b.max_x() {
        Some(Collision::Left)
    } else if a.min_x() > b.min_x() && a.min_x() < b.max_x() && a.max_x() > b.max_x() {
        Some(Collision::Right)
    } else {
        None
    }
}

/// The horizontal edge of `b` that `a` straddles while its other edge lies
/// within `b`, if any.
pub open spec fn vertical_side(a: Aabb, b: Aabb) -> Option<Collision> {
    if a.min_y() < b.min_y() && a.max_y() > b.min_y() && a.max_y() < b.max_y() {
        Some(Collision::Bottom)
    } else if a.min_y() > b.min_y() && a.min_y() < b.max_y() && a.max_y() > b.max_y() {
        Some(Collision::Top)
    } else {
        None
    }
}

/// How far `a` reaches past the vertical edge it straddles.
pub open spec fn horizontal_depth(a: Aabb, b: Aabb) -> int {
    match horizontal_side(a, b) {
        Some(Collision::Left) => a.max_x() - b.min_x(),
        Some(Collision::Right) => b.max_x() - a.min_x(),
        _ => 0,
    }
}

/// How far `a` reaches past the horizontal edge it straddles.
pub open spec fn vertical_depth(a: Aabb, b: Aabb) -> int {
    match vertical_side(a, b) {
        Some(Collision::Bottom) => a.max_y() - b.min_y(),
        Some(Collision::Top) => b.max_y() - a.min_y(),
        _ => 0,
    }
}

/// The contact of ball box `a` with collider box `b`: none without overlap;
/// the straddled edge where only one axis has one; otherwise the axis whose
/// penetration is smaller relative to the ball's half extent on that axis
/// (for a square ball, the shallower one), the horizontal one on a tie; `Inside` where neither axis has one.
pub open spec fn collision(a: Aabb, b: Aabb) -> Option<Collision> {
    if !overlaps(a, b) {
        None
    } else {
        match (horizontal_side(a, b), vertical_side(a, b)) {
            (None, None) => Some(Collision::Inside),
            (Some(h), None) => Some(h),
            (None, Some(v)) => Some(v),
            (Some(h), Some(v)) => if vertical_depth(a, b) * a.half.x < horizontal_depth(a, b)
                * a.half.y {
                Some(v)
            } else {
                Some(h)
            },
        }
    }
}

/// Classifies the contact of the ball's box `a` with a collider's box `b`.
pub fn collide(a: Aabb, b: Aabb) -> (r: Option<Collision>)
    requires
        a.wf(),
        b.wf(),
    ensures
        r == collision(a, b),
{
    let a_min_x = a.center.x as i128 - a.half.x as i128;
    let a_max_x = a.center.x as i128 + a.half.x as i128;
    let a_min_y = a.center.y as i128 - a.half.y as i128;
    let a_max_y = a.center.y as i128 + a.half.y as i128;
    let b_min_x = b.center.x as i128 - b.half.x as i128;
    let b_max_x = b.center.x as i128 + b.half.x as i128;
    let b_min_y = b.center.y as i128 - b.half.y as i128;
    let b_max_y = b.center.y as i128 + b.half.y as i128;
    if !(a_min_x < b_max_x && a_max_x > b_min_x && a_min_y < b_max_y && a_max_y > b_min_y) {
        return None;
    }
    let (h, h_depth): (Option<Collision>, i128) = if a_min_x < b_min_x && a_max_x > b_min_x
        && a_max_x < b_max_x {
        (Some(Collision::Left), a_max_x - b_min_x)
    } else if a_min_x > b_min_x && a_min_x < b_max_x && a_max_x > b_max_x {
        (Some(Collision::Right), b_max_x - a_min_x)
    } else {
        (None, 0)
    };
    let (v, v_depth): (Option<Collision>, i128) = if a_min_y < b_min_y && a_max_y > b_min_y
        && a_max_y < b_max_y {
        (Some(Collision::Bottom), a_max_y - b_min_y)
    } else if a_min_y > b_min_y && a_min_y < b_max_y && a_max_y > b_max_y {
        (Some(Collision::Top), b_max_y - a_min_y)
    } else {
        (None, 0)
    };
    assert(h_depth == horizontal_depth(a, b));
    assert(v_depth == vertical_depth(a, b));
    match (h, v) {
        (None, None) => Some(Collision::Inside),
        (Some(h), None) => Some(h),
        (None, Some(v)) => Some(v),
        (Some(h), Some(v)) => {
            // Each penetration is shorter than the ball's full extent on
            // that axis, and each half extent fits in an i64.
            assert(0 < h_depth <= 2 * a.half.x);
            assert(0 < v_depth <= 2 * a.half.y);
            assert(v_depth * (a.half.x as i128) <= 0xffff_ffff_ffff_fffe * 0x7fff_ffff_ffff_ffff)
                by (nonlinear_arith)
                requires
                    0 < v_depth <= 0xffff_ffff_ffff_fffe,
                    0 <= a.half.x <= 0x7fff_ffff_ffff_ffff,
            ;
            assert(h_depth * (a.half.y as i128) <= 0xffff_ffff_ffff_fffe * 0x7fff_ffff_ffff_ffff)
                by (nonlinear_arith)
                requires
                    0 < h_depth <= 0xffff_ffff_ffff_fffe,
                    0 <= a.half.y <= 0x7fff_ffff_ffff_ffff,
            ;
            if v_depth * (a.half.x as i128) < h_depth * (a.half.y as i128) {
                Some(v)
            } else {
                Some(h)
            }
        },
    }
}

/// The velocity after contact `c`: the component pointing into the touched
/// face is negated, and only while the ball moves toward that face.
pub open spec fn reflection(v: Point, c: Collision) -> Point {
    match c {
        Collision::Left => if v.x > 0 {
            Point { x: -v.x as i64, y: v.y }
        } else {
            v
        },
        Collision::Right => if v.x < 0 {
            Point { x: -v.x as i64, y: v.y }
        } else {
            v
        },
        Collision::Top => if v.y < 0 {
            Point { x: v.x, y: -v.y as i64 }
        } else {
            v
        },
        Collision::Bottom => if v.y > 0 {
            Point { x: v.x, y: -v.y as i64 }
        } else {
            v
        },
        Collision::Inside => v,
    }
}

/// A velocity whose components can both be negated.
pub open spec fn velocity_ok(v: Point) -> bool {
    v.x > i64::MIN && v.y > i64::MIN
}

/// The squared speed of `v`.
pub open spec fn speed_sq(v: Point) -> int {
    v.x * v.x + v.y * v.y
}

/// Resolves contact `c` against velocity `v`.
pub fn reflect(v: Point, c: Collision) -> (r: Point)
    requires
        velocity_ok(v),
    ensures
        r == reflection(v, c),
        velocity_ok(r),
        r.x == v.x || r.x == -v.x,
        r.y == v.y || r.y == -v.y,
{
    match c {
        Collision::Left => if v.x > 0 {
            Point { x: -v.x, y: v.y }
        } else {
            v
        },
        Collision::Right => if v.x < 0 {
            Point { x: -v.x, y: v.y }
        } else {
            v
        },
        Collision::Top => if v.y < 0 {
            Point { x: v.x, y: -v.y }
        } else {
            v
        },
        Collision::Bottom => if v.y > 0 {
            Point { x: v.x, y: -v.y }
        } else {
            v
        },
        Collision::Inside => v,
    }
}

/// The velocity after the ball `ball` moving at `v` meets collider `b`.
pub open spec fn bounce(ball: Aabb, v: Point, b: Aabb) -> Point {
    match collision(ball, b) {
        Some(c) => reflection(v, c),
        None => v,
    }
}

/// The velocity after meeting each collider of `boxes` in turn, each contact
/// resolved against the velocity that the earlier ones left.
pub open spec fn bounce_all(ball: Aabb, v: Point, boxes: Seq<Aabb>) -> Point
    decreases boxes.len(),
{
    if boxes.len() == 0 {
        v
    } else {
        bounce(ball, bounce_all(ball, v, boxes.drop_last()), boxes.last())
    }
}

/// Resolves the contact, if any, of `ball` moving at `v` with collider `b`.
pub fn bounce_off(ball: Aabb, v: Point, b: Aabb) -> (r: Point)
    requires
        ball.wf(),
        b.wf(),
        velocity_ok(v),
    ensures
        r == bounce(ball, v, b),
        velocity_ok(r),
{
    match collide(ball, b) {
        Some(c) => reflect(v, c),
        None => v,
    }
}

/// A reflection never changes the speed: each component keeps its magnitude.
pub proof fn lemma_reflection_keeps_speed(v: Point, c: Collision)
    requires
        velocity_ok(v),
    ensures
        speed_sq(reflection(v, c)) == speed_sq(v),
        velocity_ok(reflection(v, c)),
{
    assert((-v.x) * (-v.x) == v.x * v.x) by (nonlinear_arith);
    assert((-v.y) * (-v.y) == v.y * v.y) by (nonlinear_arith);
}

/// Meeting any sequence of colliders never changes the ball's speed.
pub proof fn lemma_collisions_keep_speed(ball: Aabb, v: Point, boxes: Seq<Aabb>)
    requires
        velocity_ok(v),
    ensures
        speed_sq(bounce_all(ball, v, boxes)) == speed_sq(v),
        velocity_ok(bounce_all(ball, v, boxes)),
    decreases boxes.len(),
{
    if boxes.len() > 0 {
        lemma_collisions_keep_speed(ball, v, boxes.drop_last());
        let w = bounce_all(ball, v, boxes.drop_last());
        match collision(ball, boxes.last()) {
            Some(c) => lemma_reflection_keeps_speed(w, c),
            None => {},
        }
    }
}

} // verus!
