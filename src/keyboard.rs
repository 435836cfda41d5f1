//! Four-way keyboard movement at a constant speed, the same in every direction.
use vstd::prelude::*;
use crate::geometry::{Vec2i, MICROS_PER_SECOND, DIAGONAL, key_axis, per_frame, per_frame_exec};

verus! {

/// The four movement keys held in a frame.
#[derive(Clone, Copy, Debug, PartialEq, Eq, Structural)]
pub struct MoveKeys {
    pub left: bool,
    pub right: bool,
    pub up: bool,
    pub down: bool,
}

/// Displacement for one frame: `speed · dt` along the held direction, with a
/// diagonal as long as a straight move.
pub open spec fn keyboard_step_spec(keys: MoveKeys, speed: nat, dt: nat) -> (int, int) {
    let dx = key_axis(keys.left, keys.right);
    let dy = key_axis(keys.down, keys.up);
    let length = per_frame(speed, dt);
    if dx != 0 && dy != 0 {
        let d = length * DIAGONAL / MICROS_PER_SECOND as int;
        (dx * d, dy * d)
    } else {
        (dx * length, dy * length)
    }
}

/// The displacement that the held keys ask for in a frame of `dt`
/// microseconds, at `speed` position units per second.
pub fn keyboard_step(keys: MoveKeys, speed: u64, dt: u64) -> (r: Vec2i)
    requires
        per_frame(speed as nat, dt as nat) <= i64::MAX,
    ensures
        (r.x as int, r.y as int) == keyboard_step_spec(keys, speed as nat, dt as nat),
{
    let length = per_frame_exec(speed, dt);
    let dx: i64 = (if keys.right { 1i64 } else { 0i64 }) - (if keys.left { 1i64 } else { 0i64 });
    let dy: i64 = (if keys.up { 1i64 } else { 0i64 }) - (if keys.down { 1i64 } else { 0i64 });
    let l: i64 = if dx != 0 && dy != 0 {
        assert(length * DIAGONAL / 1_000_000 <= length) by (nonlinear_arith)
            requires
                length >= 0,
        ;
        (length * (DIAGONAL as u128) / (MICROS_PER_SECOND as u128)) as i64
    } else {
        length as i64
    };
    let x: i64 = if dx > 0 {
        l
    } else if dx < 0 {
        -l
    } else {
        0
    };
    let y: i64 = if dy > 0 {
        l
    } else if dy < 0 {
        -l
    } else {
        0
    };
    proof {
        let ax = key_axis(keys.left, keys.right);
        let ay = key_axis(keys.down, keys.up);
        assert(ax == dx && ay == dy);
        assert(x == ax * l && y == ay * l) by (nonlinear_arith)
            requires
                ax == 1 || ax == 0 || ax == -1,
                ay == 1 || ay == 0 || ay == -1,
                ax == 1 ==> x == l,
                ax == -1 ==> x == -l,
                ax == 0 ==> x == 0,
                ay == 1 ==> y == l,
                ay == -1 ==> y == -l,
                ay == 0 ==> y == 0,
        ;
    }
    Vec2i { x, y }
}

} // verus!
