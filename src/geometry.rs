//! Fixed-point 2D vectors and the scales shared by every module.
use vstd::prelude::*;

verus! {

/// Position units in one world unit (pixel).
pub const UNIT: i64 = 1000;

/// Microseconds in one second.
pub const MICROS_PER_SECOND: u64 = 1_000_000;


/// A point or displacement, in thousandths of a world unit.
#[derive(Clone, Copy, Debug, PartialEq, Eq, Structural)]
pub struct Vec2i {
    pub x: i64,
    pub y: i64,
}

impl Vec2i {
    pub fn new(x: i64, y: i64) -> (r: Vec2i)
        ensures
            r.x == x,
            r.y == y,
    {
        Vec2i { x, y }
    }

    pub open spec fn zero_spec() -> Vec2i {
        Vec2i { x: 0, y: 0 }
    }

    pub fn zero() -> (r: Vec2i)
        ensures
            r == Vec2i::zero_spec(),
    {
        Vec2i { x: 0, y: 0 }
    }
}

/// The smaller of `v` and `hi`, raised to at least `lo`.
pub open spec fn clamp(v: int, lo: int, hi: int) -> int {
    if v < lo {
        lo
    } else if v > hi {
        hi
    } else {
        v
    }
}

pub fn clamp_i64(v: i64, lo: i64, hi: i64) -> (r: i64)
    requires
        lo <= hi,
    ensures
        r == clamp(v as int, lo as int, hi as int),
        lo <= r <= hi,
{
    if v < lo {
        lo
    } else if v > hi {
        hi
    } else {
        v
    }
}

/// Whole-number division rounding to the nearest integer, halves upward.
pub open spec fn round_div(n: int, d: int) -> int {
    (2 * n + d) / (2 * d)
}

/// `1/√2` in millionths, rounded up.
pub const DIAGONAL: u64 = 707_107;

/// `1/√2` in millionths: `DIAGONAL` is the least number whose square, doubled,
/// reaches one whole squared.
pub proof fn lemma_diagonal_is_inverse_sqrt2()
    ensures
        2 * (DIAGONAL - 1) * (DIAGONAL - 1) < MICROS_PER_SECOND * MICROS_PER_SECOND,
        MICROS_PER_SECOND * MICROS_PER_SECOND <= 2 * DIAGONAL * DIAGONAL,
{
}

/// Input along one axis: -1 for the negative key alone, 1 for the positive key
/// alone, 0 otherwise.
pub open spec fn key_axis(negative: bool, positive: bool) -> int {
    (if positive {
        1int
    } else {
        0int
    }) - (if negative {
        1int
    } else {
        0int
    })
}

/// `rate · dt` for a rate per second and `dt` in microseconds, rounded down.
pub open spec fn per_frame(rate: nat, dt: nat) -> int {
    (rate * dt) as int / MICROS_PER_SECOND as int
}

/// `rate · dt` for a rate per second and `dt` in microseconds, rounded down.
pub fn per_frame_exec(rate: u64, dt: u64) -> (r: u128)
    ensures
        r == per_frame(rate as nat, dt as nat),
{
    assert(rate * dt <= 0xffff_ffff_ffff_ffffu64 * 0xffff_ffff_ffff_ffffu64) by (nonlinear_arith);
    (rate as u128) * (dt as u128) / (MICROS_PER_SECOND as u128)
}

} // verus!
