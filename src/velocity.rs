//! A character driven by setting its velocity directly.
use vstd::prelude::*;
use crate::geometry::{Vec2i, UNIT, MICROS_PER_SECOND};

verus! {

/// Upward speed set by a jump, in position units per second.
pub const JUMP_SPEED: i64 = 1000 * UNIT;

/// Lateral speed of a controller made with `default`, in position units per
/// second.
pub const DEFAULT_SPEED: i64 = 2500 * UNIT;

/// Lateral speed of a velocity-driven character, in position units per second.
#[derive(Clone, Copy, Debug, PartialEq, Eq, Structural)]
pub struct VelocityCharacterController {
    pub speed: i64,
}

/// The same component under the name the keyboard plugins use.
pub type KeyboardMovable = VelocityCharacterController;

impl VelocityCharacterController {
    pub fn new(speed: i64) -> (r: VelocityCharacterController)
        ensures
            r.speed == speed,
    {
        VelocityCharacterController { speed }
    }

    /// The velocity after the lateral keys: with exactly one of them held, the
    /// horizontal velocity becomes `speed` toward it; otherwise it is unchanged.
    pub fn player_movement(&self, velocity: Vec2i, left: bool, right: bool) -> (r: Vec2i)
        requires
            left && !right ==> self.speed != i64::MIN,
        ensures
            r.y == velocity.y,
            left == right ==> r.x == velocity.x,
            right && !left ==> r.x == self.speed,
            left && !right ==> r.x == -self.speed,
    {
        if left == right {
            velocity
        } else if right {
            Vec2i { x: self.speed, y: velocity.y }
        } else {
            Vec2i { x: -self.speed, y: velocity.y }
        }
    }
}

impl Default for VelocityCharacterController {
    fn default() -> (r: VelocityCharacterController)
        ensures
            r.speed == DEFAULT_SPEED,
    {
        VelocityCharacterController { speed: DEFAULT_SPEED }
    }
}

/// The velocity after the jump key: a fresh press sets the upward speed to
/// `JUMP_SPEED`.
pub fn velocity_jump(velocity: Vec2i, pressed: bool) -> (r: Vec2i)
    ensures
        r.x == velocity.x,
        r.y == if pressed {
            JUMP_SPEED
        } else {
            velocity.y
        },
{
    if pressed {
        Vec2i { x: velocity.x, y: JUMP_SPEED }
    } else {
        velocity
    }
}

/// A platform that spins up while its key is held, at this angular
/// acceleration in thousandths of a radian per second squared.
#[derive(Clone, Copy, Debug, PartialEq, Eq, Structural)]
pub struct Rotatable(pub i64);

/// Angular velocity gained in a frame of `dt` microseconds, rounded toward
/// zero.
pub open spec fn spin_delta(accel: int, dt: nat) -> int {
    if accel >= 0 {
        accel * dt / MICROS_PER_SECOND as int
    } else {
        -((-accel * dt) / MICROS_PER_SECOND as int)
    }
}

/// The angular velocity after a frame: it grows by the platform's acceleration
/// times the frame time while the key is held.
pub fn rotate_platform(angvel: i64, platform: Rotatable, pressed: bool, dt: u64) -> (r: i64)
    requires
        pressed ==> i64::MIN <= angvel + spin_delta(platform.0 as int, dt as nat) <= i64::MAX,
    ensures
        r == if pressed {
            angvel + spin_delta(platform.0 as int, dt as nat)
        } else {
            angvel as int
        },
{
    if !pressed {
        return angvel;
    }
    let accel = platform.0 as i128;
    let magnitude: u128 = if accel >= 0 { accel as u128 } else { (-accel) as u128 };
    assert(magnitude * dt <= 0x8000_0000_0000_0000u64 * 0xffff_ffff_ffff_ffffu64) by (nonlinear_arith)
        requires
            magnitude <= 0x8000_0000_0000_0000u64,
    ;
    let gained: u128 = magnitude * (dt as u128) / (MICROS_PER_SECOND as u128);
    let delta: i128 = if accel >= 0 { gained as i128 } else { -(gained as i128) };
    (angvel as i128 + delta) as i64
}

} // verus!
