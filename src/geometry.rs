//! Fixed-point points, axis-aligned boxes and motion over elapsed time.
//!
//! Lengths are counted in sub-units: `SCALE` of them make one world unit.
//! Speeds are sub-units per second and elapsed time is in microseconds.
use vstd::prelude::*;

verus! {

/// Sub-units per world unit.
pub const SCALE: i64 = 1000;

/// Microseconds per second: the unit of elapsed frame time.
pub const MICROS_PER_SECOND: u64 = 1_000_000;

/// A pair of fixed-point coordinates; also used for velocities.
#[derive(Clone, Copy, Debug, PartialEq, Eq, Structural)]
pub struct Point {
    pub x: i64,
    pub y: i64,
}

/// An axis-aligned box given by its center and its half extents.
#[derive(Clone, Copy, Debug, PartialEq, Eq, Structural)]
pub struct Aabb {
    pub center: Point,
    pub half: Point,
}

impl Aabb {
    /// Half extents are never negative.
    pub open spec fn wf(self) -> bool {
        self.half.x >= 0 && self.half.y >= 0
    }

    pub open spec fn min_x(self) -> int {
        self.center.x - self.half.x
    }

    pub open spec fn max_x(self) -> int {
        self.center.x + self.half.x
    }

    pub open spec fn min_y(self) -> int {
        self.center.y - self.half.y
    }

    pub open spec fn max_y(self) -> int {
        self.center.y + self.half.y
    }
}

/// Distance covered in `dt` microseconds at `v` sub-units per second,
/// rounded toward zero, so that opposite speeds give opposite distances.
pub open spec fn displacement(v: int, dt: int) -> int {
    if v >= 0 {
        (v * dt) / (MICROS_PER_SECOND as int)
    } else {
        -(((-v) * dt) / (MICROS_PER_SECOND as int))
    }
}

/// Computes `displacement(v, dt)`; the result always fits in an `i128`.
pub fn displacement_of(v: i64, dt: u64) -> (r: i128)
    ensures
        r == displacement(v as int, dt as int),
        -0x1_0000_0000_0000_0000_0000_0000_0000 <= r <= 0x1_0000_0000_0000_0000_0000_0000_0000,
{
    let wide: i128 = v as i128;
    let mag: u128 = if v >= 0 {
        wide as u128
    } else {
        (-wide) as u128
    };
    assert(mag <= 0x8000_0000_0000_0000);
    assert(mag * (dt as u128) <= 0x8000_0000_0000_0000 * 0xffff_ffff_ffff_ffffu128) by (nonlinear_arith)
        requires
            mag <= 0x8000_0000_0000_0000,
            dt <= 0xffff_ffff_ffff_ffffu64,
    ;
    let q: u128 = (mag * (dt as u128)) / (MICROS_PER_SECOND as u128);
    assert(q <= 0x8000_0000_0000_0000 * 0xffff_ffff_ffff_ffffu128 / 1_000_000) by (nonlinear_arith)
        requires
            q == (mag * (dt as u128)) / 1_000_000,
            mag * (dt as u128) <= 0x8000_0000_0000_0000 * 0xffff_ffff_ffff_ffffu128,
    ;
    if v >= 0 {
        q as i128
    } else {
        -(q as i128)
    }
}

} // verus!
