//! Spawning bouncing balls: the switches that the keyboard flips, and the
//! random speed and size of each new ball.
use vstd::prelude::*;
use rand::Rng;
use crate::geometry::{Vec2i, UNIT};

verus! {

/// How much one key press grows or shrinks the ball size, in position units.
pub const BALL_SIZE_STEP: i64 = 10 * UNIT;

/// Smallest radius range base, in position units.
pub const MIN_BALL_SIZE: i64 = 5 * UNIT;

/// Each velocity component of a new ball is below this many world units per
/// second in size.
pub const SPAWN_SPEED_LIMIT: i64 = 3000;

/// Whether balls spawn, and the base of their size, in position units.
#[derive(Clone, Copy, Debug, PartialEq, Eq, Structural)]
pub struct SpawnSettings {
    pub enabled: bool,
    pub ball_size: i64,
}

/// The keys pressed this frame that change the settings.
#[derive(Clone, Copy, Debug, PartialEq, Eq, Structural)]
pub struct SpawnKeys {
    pub toggle: bool,
    pub grow: bool,
    pub shrink: bool,
}

/// A new ball: its velocity in position units per second and its radius.
#[derive(Clone, Copy, Debug, PartialEq, Eq, Structural)]
pub struct BallSpawn {
    pub velocity: Vec2i,
    pub radius: i64,
}

/// The ball size after the keys of one frame.
pub open spec fn resized(size: int, keys: SpawnKeys) -> int {
    size + (if keys.grow {
        BALL_SIZE_STEP as int
    } else {
        0
    }) - (if keys.shrink {
        BALL_SIZE_STEP as int
    } else {
        0
    })
}

/// The toggle key switches spawning on or off; the grow and shrink keys change
/// the ball size by one step each.
pub fn toggle_spawn_timer(settings: &mut SpawnSettings, keys: SpawnKeys)
    requires
        keys.grow ==> old(settings).ball_size + BALL_SIZE_STEP <= i64::MAX,
        keys.shrink ==> i64::MIN <= old(settings).ball_size - BALL_SIZE_STEP,
    ensures
        final(settings).enabled == (old(settings).enabled != keys.toggle),
        final(settings).ball_size == resized(old(settings).ball_size as int, keys),
{
    if keys.toggle {
        settings.enabled = !settings.enabled;
    }
    if keys.grow {
        settings.ball_size = settings.ball_size + BALL_SIZE_STEP;
    }
    if keys.shrink {
        settings.ball_size = settings.ball_size - BALL_SIZE_STEP;
    }
}

/// The least radius of a new ball: the ball size, but at least `MIN_BALL_SIZE`.
pub open spec fn radius_floor(ball_size: int) -> int {
    if ball_size > MIN_BALL_SIZE {
        ball_size
    } else {
        MIN_BALL_SIZE as int
    }
}

/// Relies on `rand::Rng::gen_range` with the thread-local generator: for a
/// non-empty half-open range it returns a value inside it.
#[verifier::external_body]
fn random_in(low: i64, high: i64) -> (r: i64)
    requires
        low < high,
    ensures
        low <= r < high,
{
    rand::thread_rng().gen_range(low..high)
}

/// The ball made from drawn values: a velocity of `(vx, vy)` world units per
/// second and the given radius in position units.
pub fn ball_from_draws(vx: i64, vy: i64, radius: i64) -> (r: BallSpawn)
    requires
        -SPAWN_SPEED_LIMIT <= vx <= SPAWN_SPEED_LIMIT,
        -SPAWN_SPEED_LIMIT <= vy <= SPAWN_SPEED_LIMIT,
    ensures
        r.velocity.x == vx * UNIT,
        r.velocity.y == vy * UNIT,
        r.radius == radius,
{
    BallSpawn { velocity: Vec2i { x: vx * UNIT, y: vy * UNIT }, radius }
}

/// A new ball from three draws: each velocity component a whole number of world
/// units per second below `SPAWN_SPEED_LIMIT` in size, and a radius from the
/// radius floor up to, not including, twice it.
pub fn spawn_ball(settings: &SpawnSettings) -> (r: BallSpawn)
    requires
        2 * radius_floor(settings.ball_size as int) <= i64::MAX,
    ensures
        -SPAWN_SPEED_LIMIT * UNIT <= r.velocity.x < SPAWN_SPEED_LIMIT * UNIT,
        -SPAWN_SPEED_LIMIT * UNIT <= r.velocity.y < SPAWN_SPEED_LIMIT * UNIT,
        r.velocity.x % UNIT == 0,
        r.velocity.y % UNIT == 0,
        radius_floor(settings.ball_size as int) <= r.radius < 2 * radius_floor(
            settings.ball_size as int,
        ),
{
    let vx = random_in(-SPAWN_SPEED_LIMIT, SPAWN_SPEED_LIMIT);
    let vy = random_in(-SPAWN_SPEED_LIMIT, SPAWN_SPEED_LIMIT);
    let floor = if settings.ball_size > MIN_BALL_SIZE {
        settings.ball_size
    } else {
        MIN_BALL_SIZE
    };
    let radius = random_in(floor, 2 * floor);
    ball_from_draws(vx, vy, radius)
}

} // verus!
