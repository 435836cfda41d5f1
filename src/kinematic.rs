//! A kinematic character: grounded detection from contact reports, gravity,
//! jumps with one extra jump in the air, and lateral movement, all adding to a
//! pending motion that the physics step consumes once per frame.
use vstd::prelude::*;
use crate::geometry::{Vec2i, MICROS_PER_SECOND, DIAGONAL, key_axis, per_frame, per_frame_exec};

verus! {

/// Vertical displacement below which a report counts as standing still, in
/// position units (0.01 world units).
pub const GROUND_TOLERANCE: i64 = 10;

/// Downward acceleration, in position units per second squared (98.1 world
/// units).
pub const GRAVITY: u64 = 98_100;

/// Speed of a jump impulse, in position units per second (4000 world units).
pub const JUMP_FORCE: u64 = 4_000_000;

/// Lateral speed, in position units per second (200 world units).
pub const MOVE_SPEED: u64 = 200_000;

/// Longest frame, in microseconds, that `update` accepts; within it every
/// motion a frame adds up stays far inside the range of `i64`.
pub const MAX_FRAME_MICROS: u64 = 1_000_000_000_000;

/// Where the character stands after the last physics step.
#[derive(Clone, Copy, Debug, PartialEq, Eq, Structural)]
pub enum AirState {
    Grounded,
    Airborne,
    AirborneUsedDoubleJump,
}

/// What the physics step reported for the character: whether it touched the
/// ground, and how far it actually moved vertically, in position units.
#[derive(Clone, Copy, Debug, PartialEq, Eq, Structural)]
pub struct ContactReport {
    pub grounded: bool,
    pub dy: i64,
}

/// The report puts the character on the ground.
pub open spec fn signals_ground(r: ContactReport) -> bool {
    r.grounded || (-GROUND_TOLERANCE < r.dy && r.dy < GROUND_TOLERANCE)
}

/// The report puts the character in the air.
pub open spec fn signals_air(r: ContactReport) -> bool {
    !r.grounded && (r.dy > GROUND_TOLERANCE || r.dy < -GROUND_TOLERANCE)
}

pub open spec fn next_state_spec(state: AirState, r: ContactReport) -> AirState {
    match state {
        AirState::Grounded => if signals_air(r) {
            AirState::Airborne
        } else {
            AirState::Grounded
        },
        _ => if signals_ground(r) {
            AirState::Grounded
        } else {
            state
        },
    }
}

/// The state after a contact report: a grounded character leaves the ground
/// when the report shows no contact and a vertical move beyond the tolerance;
/// a character in the air lands, and gets its extra jump back, when the report
/// shows contact or a vertical move within the tolerance.
pub fn next_air_state(state: AirState, report: ContactReport) -> (r: AirState)
    ensures
        r == next_state_spec(state, report),
{
    let on_ground = report.grounded || (-GROUND_TOLERANCE < report.dy && report.dy
        < GROUND_TOLERANCE);
    let in_air = !report.grounded && (report.dy > GROUND_TOLERANCE || report.dy
        < -GROUND_TOLERANCE);
    match state {
        AirState::Grounded => if in_air {
            AirState::Airborne
        } else {
            AirState::Grounded
        },
        _ => if on_ground {
            AirState::Grounded
        } else {
            state
        },
    }
}

/// Vertical motion that gravity adds in one frame.
pub open spec fn gravity_motion(dt: nat) -> int {
    -per_frame(GRAVITY as nat, dt)
}

/// The jump impulse: straight up, or along the diagonal toward the held
/// direction, with length `JUMP_FORCE · dt`.
pub open spec fn jump_impulse(left: bool, right: bool, dt: nat) -> (int, int) {
    let length = per_frame(JUMP_FORCE as nat, dt);
    if key_axis(left, right) == 0 {
        (0, length)
    } else {
        let d = length * DIAGONAL / MICROS_PER_SECOND as int;
        (key_axis(left, right) * d, d)
    }
}

/// Jumping is allowed until the extra jump in the air has been used.
pub open spec fn jump_allowed(state: AirState) -> bool {
    state != AirState::AirborneUsedDoubleJump
}

/// A jump from the ground leaves the ground; a jump in the air uses the extra
/// jump.
pub open spec fn state_after_jump(state: AirState) -> AirState {
    match state {
        AirState::Grounded => AirState::Airborne,
        _ => AirState::AirborneUsedDoubleJump,
    }
}

/// Lateral motion for one frame: `MOVE_SPEED · dt` toward the held direction,
/// cut to four fifths in the air.
pub open spec fn lateral_motion(left: bool, right: bool, state: AirState, dt: nat) -> int {
    let speed = per_frame(MOVE_SPEED as nat, dt);
    let damped = if state == AirState::Grounded {
        speed
    } else {
        speed * 4 / 5
    };
    key_axis(left, right) * damped
}

pub open spec fn fits_i64(v: int) -> bool {
    i64::MIN <= v <= i64::MAX
}

/// A character moved by requested displacements.
#[derive(Clone, Copy, Debug, PartialEq, Eq, Structural)]
pub struct KinematicController {
    pub state: AirState,
    pub pending: Vec2i,
}

impl KinematicController {
    /// A character that has not touched the ground yet, with nothing pending.
    pub fn new() -> (r: KinematicController)
        ensures
            r.state == AirState::Airborne,
            r.pending == Vec2i::zero_spec(),
    {
        KinematicController { state: AirState::Airborne, pending: Vec2i::zero() }
    }

    /// Takes in the report of the last physics step.
    pub fn observe(&mut self, report: ContactReport)
        ensures
            final(self).state == next_state_spec(old(self).state, report),
            final(self).pending == old(self).pending,
    {
        self.state = next_air_state(self.state, report);
    }

    /// Adds the pull of gravity for a frame of `dt` microseconds.
    pub fn apply_gravity(&mut self, dt: u64)
        requires
            fits_i64(old(self).pending.y + gravity_motion(dt as nat)),
        ensures
            final(self).pending.x == old(self).pending.x,
            final(self).pending.y == old(self).pending.y + gravity_motion(dt as nat),
            final(self).state == old(self).state,
    {
        let fall = per_frame_exec(GRAVITY, dt);
        self.pending.y = (self.pending.y as i128 - fall as i128) as i64;
    }

    /// Adds a jump impulse when the jump key was just pressed and a jump is
    /// still allowed; returns whether it did.
    pub fn jump(&mut self, pressed: bool, left: bool, right: bool, dt: u64) -> (jumped: bool)
        requires
            pressed && jump_allowed(old(self).state) ==> fits_i64(
                old(self).pending.x + jump_impulse(left, right, dt as nat).0,
            ),
            pressed && jump_allowed(old(self).state) ==> fits_i64(
                old(self).pending.y + jump_impulse(left, right, dt as nat).1,
            ),
        ensures
            jumped == (pressed && jump_allowed(old(self).state)),
            jumped ==> {
                &&& final(self).pending.x == old(self).pending.x + jump_impulse(left, right, dt as nat).0
                &&& final(self).pending.y == old(self).pending.y + jump_impulse(left, right, dt as nat).1
                &&& final(self).state == state_after_jump(old(self).state)
            },
            !jumped ==> *final(self) == *old(self),
    {
        if !pressed || self.state == AirState::AirborneUsedDoubleJump {
            return false;
        }
        let length = per_frame_exec(JUMP_FORCE, dt);
        let axis: i128 = (if right { 1i128 } else { 0i128 }) - (if left { 1i128 } else { 0i128 });
        let (ix, iy): (i128, i128) = if axis == 0 {
            (0, length as i128)
        } else {
            let d: u128 = length * (DIAGONAL as u128) / (MICROS_PER_SECOND as u128);
            (axis * d as i128, d as i128)
        };
        self.pending.x = (self.pending.x as i128 + ix) as i64;
        self.pending.y = (self.pending.y as i128 + iy) as i64;
        self.state = match self.state {
            AirState::Grounded => AirState::Airborne,
            _ => AirState::AirborneUsedDoubleJump,
        };
        true
    }

    /// Adds lateral movement for the held keys.
    pub fn move_lateral(&mut self, left: bool, right: bool, dt: u64)
        requires
            fits_i64(old(self).pending.x + lateral_motion(left, right, old(self).state, dt as nat)),
        ensures
            final(self).pending.x == old(self).pending.x + lateral_motion(
                left,
                right,
                old(self).state,
                dt as nat,
            ),
            final(self).pending.y == old(self).pending.y,
            final(self).state == old(self).state,
    {
        let speed = per_frame_exec(MOVE_SPEED, dt);
        let damped: u128 = if self.state == AirState::Grounded {
            speed
        } else {
            speed * 4 / 5
        };
        let axis: i128 = (if right { 1i128 } else { 0i128 }) - (if left { 1i128 } else { 0i128 });
        self.pending.x = (self.pending.x as i128 + axis * damped as i128) as i64;
    }

    /// Hands the pending motion to the physics step and starts the next frame
    /// with nothing pending.
    pub fn take_motion(&mut self) -> (r: Vec2i)
        ensures
            r == old(self).pending,
            final(self).pending == Vec2i::zero_spec(),
            final(self).state == old(self).state,
    {
        let r = self.pending;
        self.pending = Vec2i::zero();
        r
    }
}

/// The keys read in one frame.
#[derive(Clone, Copy, Debug, PartialEq, Eq, Structural)]
pub struct FrameInput {
    pub jump_pressed: bool,
    pub left: bool,
    pub right: bool,
}

/// The state after the report of the last physics step, if there is one.
pub open spec fn observed(state: AirState, report: Option<ContactReport>) -> AirState {
    match report {
        Some(r) => next_state_spec(state, r),
        None => state,
    }
}

/// Whether a frame's input makes the character jump.
pub open spec fn frame_jumps(state: AirState, input: FrameInput) -> bool {
    input.jump_pressed && jump_allowed(state)
}

/// The state at the end of a frame that started in `state`.
pub open spec fn frame_state(state: AirState, input: FrameInput) -> AirState {
    if frame_jumps(state, input) {
        state_after_jump(state)
    } else {
        state
    }
}

/// The motion requested in a frame that started in `state`: lateral movement,
/// gravity and a jump impulse, added together.
pub open spec fn frame_motion(state: AirState, input: FrameInput, dt: nat) -> (int, int) {
    let jump = if frame_jumps(state, input) {
        jump_impulse(input.left, input.right, dt)
    } else {
        (0int, 0int)
    };
    (
        lateral_motion(input.left, input.right, state, dt) + jump.0,
        gravity_motion(dt) + jump.1,
    )
}

proof fn lemma_per_frame_bound(rate: nat, dt: nat)
    requires
        rate <= JUMP_FORCE,
    ensures
        0 <= per_frame(rate, dt) <= 4 * dt,
{
    assert(rate * dt <= 4_000_000 * dt) by (nonlinear_arith)
        requires
            rate <= 4_000_000,
    ;
    assert(per_frame(rate, dt) <= 4 * dt);
}

proof fn lemma_frame_parts_bounded(state: AirState, input: FrameInput, dt: nat)
    ensures
        -4 * dt <= lateral_motion(input.left, input.right, state, dt) <= 4 * dt,
        -4 * dt <= gravity_motion(dt) <= 0,
        -4 * dt <= jump_impulse(input.left, input.right, dt).0 <= 4 * dt,
        0 <= jump_impulse(input.left, input.right, dt).1 <= 4 * dt,
{
    lemma_per_frame_bound(MOVE_SPEED as nat, dt);
    lemma_per_frame_bound(GRAVITY as nat, dt);
    lemma_per_frame_bound(JUMP_FORCE as nat, dt);
    let length = per_frame(JUMP_FORCE as nat, dt);
    assert(0 <= length * DIAGONAL / MICROS_PER_SECOND as int <= length) by (nonlinear_arith)
        requires
            length >= 0,
    ;
    let speed = per_frame(MOVE_SPEED as nat, dt);
    assert(0 <= speed * 4 / 5 <= speed);
    let a = key_axis(input.left, input.right);
    if a == 1 {
    } else if a == -1 {
    } else {
        assert(a == 0);
    }
}

/// Gravity and a straight jump requested in the same frame add up: from an
/// idle start the frame's motion is `(0, J − g·dt)`, with `J = JUMP_FORCE·dt`.
pub proof fn lemma_pending_motion_adds(state: AirState, dt: nat)
    requires
        jump_allowed(state),
    ensures
        frame_motion(state, FrameInput { jump_pressed: true, left: false, right: false }, dt) == (
            0int,
            per_frame(JUMP_FORCE as nat, dt) - per_frame(GRAVITY as nat, dt),
        ),
{
}

impl KinematicController {
    /// One frame of the controller: takes in the last physics report, adds
    /// lateral movement, gravity and a jump to the pending motion, and hands the
    /// sum over to the physics step.
    pub fn update(&mut self, report: Option<ContactReport>, input: FrameInput, dt: u64) -> (motion: Vec2i)
        requires
            old(self).pending == Vec2i::zero_spec(),
            dt <= MAX_FRAME_MICROS,
        ensures
            (motion.x as int, motion.y as int) == frame_motion(
                observed(old(self).state, report),
                input,
                dt as nat,
            ),
            final(self).state == frame_state(observed(old(self).state, report), input),
            final(self).pending == Vec2i::zero_spec(),
    {
        if let Some(r) = report {
            self.observe(r);
        }
        let ghost state = self.state;
        proof {
            lemma_frame_parts_bounded(state, input, dt as nat);
        }
        self.move_lateral(input.left, input.right, dt);
        self.apply_gravity(dt);
        self.jump(input.jump_pressed, input.left, input.right, dt);
        self.take_motion()
    }
}

} // verus!
