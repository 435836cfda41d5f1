//! Camera follow with a deadzone, exponential smoothing and level clamping.
use vstd::prelude::*;
use vstd::arithmetic::div_mod::{
    lemma_div_is_ordered, lemma_div_pos_is_pos, lemma_div_is_ordered_by_denominator,
};
use vstd::arithmetic::mul::lemma_mul_inequality;
use crate::geometry::{Vec2i, UNIT, clamp, clamp_i64};

verus! {

/// Distance from the target within which the camera holds still.
pub const DEADZONE: i64 = 10 * UNIT;

/// A lerp factor of one whole, in millionths.
pub const FACTOR_ONE: u64 = 1_000_000;

/// Smoothing rate of the follow camera, in thousandths per second (5 per second).
pub const FOLLOW_RATE: u64 = 5_000;

/// Fixed-point scale of the exponential while it is computed: one whole is
/// this many units.
pub const GROWTH_ONE: u128 = 1_000_000_000_000;

/// Terms of the series for `e^y` after the constant one.
pub const SERIES_DEGREE: u128 = 8;

/// The exponent is split into this many equal parts, `2⁴`; the series is
/// summed for one part and the result squared four times.
pub const EXPONENT_PARTS: u128 = 16;

/// Exponents at or beyond this many millionths (fourteen) give a factor of one
/// whole: there `e^{−x}` is below one millionth.
pub const SATURATING_EXPONENT: u128 = 14_000_000;

/// `k·dt` in millionths, for a rate `k` in thousandths per second and `dt` in
/// microseconds.
pub open spec fn decay_exponent(rate: nat, dt: nat) -> nat {
    rate * dt / 1000
}

/// One part of the exponent, as the denominator that turns `x` in millionths
/// into `x / EXPONENT_PARTS` in wholes.
pub open spec fn part_denominator() -> int {
    EXPONENT_PARTS * FACTOR_ONE
}

/// Horner's scheme for `e^y`, `y = x / part_denominator()`, after `j` of its
/// steps, in units of `GROWTH_ONE`, each step rounded down:
/// `h₀ = 1`, `h_{j+1} = 1 + h_j · y / (SERIES_DEGREE − j)`.
pub open spec fn growth_series(x: nat, j: nat) -> int
    decreases j,
{
    if j == 0 {
        GROWTH_ONE as int
    } else {
        GROWTH_ONE + growth_series(x, (j - 1) as nat) * x / (part_denominator() * (SERIES_DEGREE
            - (j - 1)))
    }
}

/// `v²` in units of `GROWTH_ONE`, rounded down.
pub open spec fn square_down(v: int) -> int {
    v * v / GROWTH_ONE as int
}

/// `e^x` for `x` in millionths, in units of `GROWTH_ONE`: the series for a
/// sixteenth of `x`, squared four times.
pub open spec fn growth_of(x: nat) -> int {
    square_down(square_down(square_down(square_down(growth_series(x, SERIES_DEGREE as nat)))))
}

/// `1 − e^{−x}` in millionths for `x` in millionths: one whole less the
/// reciprocal of `growth_of(x)`, rounded down, and one whole from
/// `SATURATING_EXPONENT` on. It lies within one millionth of the exact value.
pub open spec fn lerp_factor_of(x: nat) -> int {
    if x >= SATURATING_EXPONENT {
        FACTOR_ONE as int
    } else {
        FACTOR_ONE - FACTOR_ONE * GROWTH_ONE / growth_of(x)
    }
}

/// The smoothing fraction `1 − e^{−k·dt}` in millionths, computed as
/// `lerp_factor_of` describes.
pub open spec fn lerp_factor_spec(rate: nat, dt: nat) -> int {
    lerp_factor_of(decay_exponent(rate, dt))
}

proof fn lemma_series_monotone(x: nat, y: nat, j: nat)
    requires
        x <= y,
        j <= SERIES_DEGREE,
    ensures
        GROWTH_ONE <= growth_series(x, j) <= growth_series(y, j),
    decreases j,
{
    if j > 0 {
        let hx = growth_series(x, (j - 1) as nat);
        let hy = growth_series(y, (j - 1) as nat);
        lemma_series_monotone(x, y, (j - 1) as nat);
        assert(part_denominator() == 16_000_000);
        let d = part_denominator() * (SERIES_DEGREE - (j - 1));
        assert(d > 0);
        assert(0 <= hx * x <= hy * y) by (nonlinear_arith)
            requires
                0 <= hx <= hy,
                0 <= x <= y,
        ;
        lemma_div_is_ordered(hx * x, hy * y, d);
        lemma_div_pos_is_pos(hx * x, d);
    }
}

proof fn lemma_series_bound(x: nat, j: nat)
    requires
        x < SATURATING_EXPONENT,
        j <= SERIES_DEGREE,
    ensures
        growth_series(x, j) <= 8 * GROWTH_ONE,
    decreases j,
{
    if j > 0 {
        let h = growth_series(x, (j - 1) as nat);
        lemma_series_bound(x, (j - 1) as nat);
        lemma_series_monotone(0, x, (j - 1) as nat);
        let m = part_denominator();
        assert(m == 16_000_000);
        let d = m * (SERIES_DEGREE - (j - 1));
        assert(m <= d);
        assert(0 <= h * x <= 7 * GROWTH_ONE * m) by (nonlinear_arith)
            requires
                0 <= h <= 8 * GROWTH_ONE,
                0 <= x < 14_000_000,
                m == 16_000_000,
        ;
        lemma_div_is_ordered_by_denominator(h * x, m, d);
        lemma_div_is_ordered(h * x, 7 * GROWTH_ONE * m, m);
        assert((7 * GROWTH_ONE * m) / m == 7 * GROWTH_ONE) by (nonlinear_arith)
            requires
                m == 16_000_000,
        ;
    }
}

proof fn lemma_square_down_monotone(v: int, w: int)
    requires
        GROWTH_ONE <= v <= w,
    ensures
        GROWTH_ONE <= square_down(v) <= square_down(w),
{
    let one = GROWTH_ONE as int;
    assert(one * one <= v * v <= w * w) by (nonlinear_arith)
        requires
            0 <= one <= v <= w,
    ;
    lemma_div_is_ordered(v * v, w * w, one);
    lemma_div_is_ordered(one * one, v * v, one);
    assert((one * one) / one == one) by (nonlinear_arith)
        requires
            one > 0,
    ;
}

proof fn lemma_growth_monotone(x: nat, y: nat)
    requires
        x <= y,
    ensures
        GROWTH_ONE <= growth_of(x) <= growth_of(y),
{
    let a0 = growth_series(x, SERIES_DEGREE as nat);
    let b0 = growth_series(y, SERIES_DEGREE as nat);
    lemma_series_monotone(x, y, SERIES_DEGREE as nat);
    lemma_square_down_monotone(a0, b0);
    lemma_square_down_monotone(square_down(a0), square_down(b0));
    lemma_square_down_monotone(square_down(square_down(a0)), square_down(square_down(b0)));
    lemma_square_down_monotone(
        square_down(square_down(square_down(a0))),
        square_down(square_down(square_down(b0))),
    );
}

proof fn lemma_lerp_factor_of_bounds(x: nat)
    ensures
        0 <= lerp_factor_of(x) <= FACTOR_ONE,
{
    if x < SATURATING_EXPONENT {
        lemma_growth_monotone(0, x);
        let one = FACTOR_ONE * GROWTH_ONE;
        assert(one / (GROWTH_ONE as int) == FACTOR_ONE);
        lemma_div_is_ordered_by_denominator(one, GROWTH_ONE as int, growth_of(x));
        lemma_div_pos_is_pos(one, growth_of(x));
    }
}

/// The smoothing fraction lies between none and one whole, and grows with the
/// frame time.
pub proof fn lemma_lerp_factor_bounded_and_monotone(rate: nat, dt1: nat, dt2: nat)
    requires
        dt1 <= dt2,
    ensures
        0 <= lerp_factor_spec(rate, dt1) <= FACTOR_ONE,
        0 <= lerp_factor_spec(rate, dt2) <= FACTOR_ONE,
        lerp_factor_spec(rate, dt1) <= lerp_factor_spec(rate, dt2),
{
    let x1 = decay_exponent(rate, dt1);
    let x2 = decay_exponent(rate, dt2);
    lemma_mul_inequality(dt1 as int, dt2 as int, rate as int);
    assert(rate * dt1 == dt1 * rate && rate * dt2 == dt2 * rate) by (nonlinear_arith);
    lemma_div_is_ordered((rate * dt1) as int, (rate * dt2) as int, 1000);
    assert(x1 <= x2);
    lemma_lerp_factor_of_bounds(x1);
    lemma_lerp_factor_of_bounds(x2);
    if x2 < SATURATING_EXPONENT {
        lemma_growth_monotone(x1, x2);
        lemma_growth_monotone(0, x1);
        lemma_div_is_ordered_by_denominator(FACTOR_ONE * GROWTH_ONE, growth_of(x1), growth_of(x2));
    }
}

/// `square_down` on a value no larger than `bound`, with `bound²` below
/// `u128::MAX`.
fn square_down_exec(v: u128, bound: u128) -> (r: u128)
    requires
        GROWTH_ONE <= v <= bound,
        bound * bound <= u128::MAX,
    ensures
        r == square_down(v as int),
        GROWTH_ONE <= r <= (bound * bound) as int / GROWTH_ONE as int,
{
    assert(v * v <= bound * bound) by (nonlinear_arith)
        requires
            0 <= v <= bound,
    ;
    proof {
        lemma_square_down_monotone(v as int, bound as int);
    }
    v * v / GROWTH_ONE
}

/// The smoothing fraction `1 − e^{−k·dt}`, in millionths, for a rate `k` in
/// thousandths per second and a frame time `dt` in microseconds; within one
/// millionth of the exact value.
pub fn lerp_factor(rate: u64, dt: u64) -> (r: u64)
    ensures
        r == lerp_factor_spec(rate as nat, dt as nat),
        r <= FACTOR_ONE,
{
    proof {
        lemma_lerp_factor_of_bounds(decay_exponent(rate as nat, dt as nat));
    }
    assert((rate as int) * (dt as int) <= 0xffff_ffff_ffff_ffffu64 * 0xffff_ffff_ffff_ffffu64)
        by (nonlinear_arith);
    let prod: u128 = (rate as u128) * (dt as u128);
    let x: u128 = prod / 1000;
    assert(x == decay_exponent(rate as nat, dt as nat));
    if x >= SATURATING_EXPONENT {
        return FACTOR_ONE;
    }
    let part: u128 = EXPONENT_PARTS * (FACTOR_ONE as u128);
    let mut h: u128 = GROWTH_ONE;
    let mut j: u128 = 0;
    while j < SERIES_DEGREE
        invariant
            j <= SERIES_DEGREE,
            x < SATURATING_EXPONENT,
            part == part_denominator(),
            h == growth_series(x as nat, j as nat),
        decreases SERIES_DEGREE - j,
    {
        proof {
            lemma_series_bound(x as nat, j as nat);
            lemma_series_monotone(0, x as nat, j as nat);
        }
        assert(h * x <= 8 * GROWTH_ONE * SATURATING_EXPONENT) by (nonlinear_arith)
            requires
                0 <= h <= 8 * GROWTH_ONE,
                0 <= x < SATURATING_EXPONENT,
        ;
        h = GROWTH_ONE + h * x / (part * (SERIES_DEGREE - j));
        j = j + 1;
    }
    proof {
        lemma_series_bound(x as nat, SERIES_DEGREE as nat);
        lemma_series_monotone(0, x as nat, SERIES_DEGREE as nat);
    }
    let b0: u128 = 8 * GROWTH_ONE;
    let v1 = square_down_exec(h, b0);
    let v2 = square_down_exec(v1, b0 * b0 / GROWTH_ONE);
    let b2: u128 = (b0 * b0 / GROWTH_ONE) * (b0 * b0 / GROWTH_ONE) / GROWTH_ONE;
    let v3 = square_down_exec(v2, b2);
    let v4 = square_down_exec(v3, b2 * b2 / GROWTH_ONE);
    let decay: u128 = (FACTOR_ONE as u128) * GROWTH_ONE / v4;
    proof {
        let one = FACTOR_ONE * GROWTH_ONE;
        assert(one / (GROWTH_ONE as int) == FACTOR_ONE);
        lemma_div_is_ordered_by_denominator(one, GROWTH_ONE as int, v4 as int);
    }
    (FACTOR_ONE as u128 - decay) as u64
}

/// Horizontal limits for the camera centre.
#[derive(Clone, Copy, Debug, PartialEq, Eq, Structural)]
pub struct XRange {
    pub min_x: i64,
    pub max_x: i64,
}

impl XRange {
    pub open spec fn wf(&self) -> bool {
        self.min_x <= self.max_x
    }
}

pub open spec fn bounds_wf(bounds: Option<XRange>) -> bool {
    match bounds {
        Some(b) => b.wf(),
        None => true,
    }
}

/// Whether the target lies within the deadzone around the camera.
pub open spec fn in_deadzone(cx: int, cy: int, tx: int, ty: int) -> bool {
    (tx - cx) * (tx - cx) + (ty - cy) * (ty - cy) <= DEADZONE * DEADZONE
}

/// The part of `offset` that a step of `factor` millionths covers, rounded away
/// from zero so that every step with a positive factor makes progress.
pub open spec fn step_toward(offset: int, factor: int) -> int {
    if offset >= 0 {
        (offset * factor + (FACTOR_ONE - 1)) / FACTOR_ONE as int
    } else {
        -((-offset * factor + (FACTOR_ONE - 1)) / FACTOR_ONE as int)
    }
}

/// `x` kept inside the bounds, when there are bounds.
pub open spec fn clamp_to(x: int, bounds: Option<XRange>) -> int {
    match bounds {
        Some(b) => clamp(x, b.min_x as int, b.max_x as int),
        None => x,
    }
}

/// The camera centre after one follow step toward the target.
pub open spec fn follow_point(
    cx: int,
    cy: int,
    tx: int,
    ty: int,
    factor: int,
    bounds: Option<XRange>,
) -> (int, int) {
    if in_deadzone(cx, cy, tx, ty) {
        (cx, cy)
    } else {
        (clamp_to(cx + step_toward(tx - cx, factor), bounds), cy + step_toward(ty - cy, factor))
    }
}

pub proof fn lemma_step_toward_bounds(offset: int, factor: int)
    requires
        0 <= factor <= FACTOR_ONE,
    ensures
        offset >= 0 ==> 0 <= step_toward(offset, factor) <= offset,
        offset <= 0 ==> offset <= step_toward(offset, factor) <= 0,
        offset != 0 && factor > 0 ==> step_toward(offset, factor) != 0,
{
    let one = FACTOR_ONE as int;
    let a = if offset >= 0 { offset } else { -offset };
    assert(0 <= a * factor <= a * one) by (nonlinear_arith)
        requires
            a >= 0,
            0 <= factor <= one,
    ;
    lemma_div_is_ordered(a * factor + (one - 1), a * one + (one - 1), one);
    assert((a * one + (one - 1)) / one == a) by (nonlinear_arith)
        requires
            a >= 0,
            one == 1_000_000,
    ;
    lemma_div_pos_is_pos(a * factor + (one - 1), one);
    if a > 0 && factor > 0 {
        assert(a * factor >= 1) by (nonlinear_arith)
            requires
                a >= 1,
                factor >= 1,
        ;
        lemma_div_is_ordered(one, a * factor + (one - 1), one);
    }
}

fn step_toward_exec(offset: i128, factor: u64) -> (r: i128)
    requires
        -0x2_0000_0000_0000_0000 <= offset <= 0x2_0000_0000_0000_0000,
        factor <= FACTOR_ONE,
    ensures
        r == step_toward(offset as int, factor as int),
{
    proof {
        let a: int = if offset >= 0 { offset as int } else { -offset };
        assert(a * factor <= 0x2_0000_0000_0000_0000 * 1_000_000) by (nonlinear_arith)
            requires
                0 <= a <= 0x2_0000_0000_0000_0000,
                0 <= factor <= 1_000_000,
        ;
        assert(a * factor >= 0) by (nonlinear_arith)
            requires
                0 <= a,
                0 <= factor,
        ;
    }
    let one: i128 = FACTOR_ONE as i128;
    if offset >= 0 {
        (offset * (factor as i128) + (one - 1)) / one
    } else {
        -((-offset * (factor as i128) + (one - 1)) / one)
    }
}

/// Moves the camera one frame toward the target. Within the deadzone the camera
/// holds still; otherwise it covers `factor` millionths of the way, and its
/// horizontal position is then kept inside `bounds`.
pub fn follow_step(camera: Vec2i, target: Vec2i, factor: u64, bounds: Option<XRange>) -> (r: Vec2i)
    requires
        factor <= FACTOR_ONE,
        bounds_wf(bounds),
    ensures
        (r.x as int, r.y as int) == follow_point(
            camera.x as int,
            camera.y as int,
            target.x as int,
            target.y as int,
            factor as int,
            bounds,
        ),
{
    let dx: i128 = target.x as i128 - camera.x as i128;
    let dy: i128 = target.y as i128 - camera.y as i128;
    let dz: i128 = DEADZONE as i128;
    assert(dz == 10_000);
    let near = if dx > dz || dx < -dz || dy > dz || dy < -dz {
        proof {
            assert(dx * dx > dz * dz || dy * dy > dz * dz) by (nonlinear_arith)
                requires
                    dx > dz || dx < -dz || dy > dz || dy < -dz,
                    dz == 10_000,
            ;
            assert(dx * dx >= 0 && dy * dy >= 0) by (nonlinear_arith);
        }
        false
    } else {
        assert(0 <= dx * dx <= dz * dz && 0 <= dy * dy <= dz * dz) by (nonlinear_arith)
            requires
                -dz <= dx <= dz,
                -dz <= dy <= dz,
                dz == 10_000,
        ;
        dx * dx + dy * dy <= dz * dz
    };
    if near {
        return camera;
    }
    let sx = step_toward_exec(dx, factor);
    let sy = step_toward_exec(dy, factor);
    proof {
        lemma_step_toward_bounds(dx as int, factor as int);
        lemma_step_toward_bounds(dy as int, factor as int);
    }
    let nx = (camera.x as i128 + sx) as i64;
    let ny = (camera.y as i128 + sy) as i64;
    let x = match bounds {
        Some(b) => clamp_i64(nx, b.min_x, b.max_x),
        None => nx,
    };
    Vec2i { x, y: ny }
}

/// A follow step with the target inside the deadzone leaves the camera where it
/// was.
pub proof fn lemma_deadzone_holds_camera(
    cx: int,
    cy: int,
    tx: int,
    ty: int,
    factor: int,
    bounds: Option<XRange>,
)
    requires
        in_deadzone(cx, cy, tx, ty),
    ensures
        follow_point(cx, cy, tx, ty, factor, bounds) == (cx, cy),
{
}

/// A camera that starts inside its horizontal bounds stays inside them after a
/// follow step, wherever the target is.
pub proof fn lemma_follow_stays_in_bounds(
    cx: int,
    cy: int,
    tx: int,
    ty: int,
    factor: int,
    bounds: XRange,
)
    requires
        bounds.wf(),
        bounds.min_x <= cx <= bounds.max_x,
    ensures
        bounds.min_x <= follow_point(cx, cy, tx, ty, factor, Some(bounds)).0 <= bounds.max_x,
{
}

/// Distance between two numbers.
pub open spec fn gap(a: int, b: int) -> nat {
    if a >= b {
        (a - b) as nat
    } else {
        (b - a) as nat
    }
}

/// The camera centre after `n` follow steps toward a target that holds still.
pub open spec fn follow_iterate(
    c: (int, int),
    t: (int, int),
    factor: int,
    bounds: Option<XRange>,
    n: nat,
) -> (int, int)
    decreases n,
{
    if n == 0 {
        c
    } else {
        follow_iterate(follow_point(c.0, c.1, t.0, t.1, factor, bounds), t, factor, bounds, (n - 1) as nat)
    }
}

/// The camera has come to rest: the target is inside the deadzone, or the
/// camera sits on the target with its horizontal position held at the bounds.
pub open spec fn settled(c: (int, int), t: (int, int), bounds: Option<XRange>) -> bool {
    in_deadzone(c.0, c.1, t.0, t.1) || (c.0 == clamp_to(t.0, bounds) && c.1 == t.1)
}

proof fn lemma_axis_progress(cx: int, tx: int, factor: int, bounds: Option<XRange>)
    requires
        0 < factor <= FACTOR_ONE,
        bounds_wf(bounds),
        clamp_to(cx, bounds) == cx,
    ensures
        ({
            let nx = clamp_to(cx + step_toward(tx - cx, factor), bounds);
            let goal = clamp_to(tx, bounds);
            &&& clamp_to(nx, bounds) == nx
            &&& gap(goal, nx) <= gap(goal, cx)
            &&& cx != goal ==> gap(goal, nx) < gap(goal, cx)
        }),
{
    lemma_step_toward_bounds(tx - cx, factor);
}

proof fn lemma_settled_is_rest(c: (int, int), t: (int, int), factor: int, bounds: Option<XRange>)
    requires
        0 < factor <= FACTOR_ONE,
        bounds_wf(bounds),
        clamp_to(c.0, bounds) == c.0,
        settled(c, t, bounds),
    ensures
        follow_point(c.0, c.1, t.0, t.1, factor, bounds) == c,
{
    lemma_axis_progress(c.0, t.0, factor, bounds);
    lemma_step_toward_bounds(t.1 - c.1, factor);
}

proof fn lemma_converges_within_bounds(
    c: (int, int),
    t: (int, int),
    factor: int,
    bounds: Option<XRange>,
) -> (n: nat)
    requires
        0 < factor <= FACTOR_ONE,
        bounds_wf(bounds),
        clamp_to(c.0, bounds) == c.0,
    ensures
        settled(follow_iterate(c, t, factor, bounds, n), t, bounds),
        clamp_to(follow_iterate(c, t, factor, bounds, n).0, bounds) == follow_iterate(
            c,
            t,
            factor,
            bounds,
            n,
        ).0,
        n <= gap(clamp_to(t.0, bounds), c.0) + gap(t.1, c.1),
    decreases gap(clamp_to(t.0, bounds), c.0) + gap(t.1, c.1),
{
    if settled(c, t, bounds) {
        0
    } else {
        let next = follow_point(c.0, c.1, t.0, t.1, factor, bounds);
        lemma_axis_progress(c.0, t.0, factor, bounds);
        lemma_step_toward_bounds(t.1 - c.1, factor);
        assert(gap(t.1, next.1) <= gap(t.1, c.1));
        assert(c.1 != t.1 ==> gap(t.1, next.1) < gap(t.1, c.1));
        let m = lemma_converges_within_bounds(next, t, factor, bounds);
        assert(follow_iterate(c, t, factor, bounds, m + 1) == follow_iterate(next, t, factor, bounds, m));
        m + 1
    }
}

/// Repeated follow steps toward a target that holds still bring the camera to
/// rest: after at most one step more than its distance from the (clamped)
/// target, counted in position units along each axis, the target is inside
/// the deadzone, or the camera sits on the target as far as the bounds allow,
/// and further steps no longer move it.
pub proof fn lemma_follow_converges(
    c: (int, int),
    t: (int, int),
    factor: int,
    bounds: Option<XRange>,
) -> (n: nat)
    requires
        0 < factor <= FACTOR_ONE,
        bounds_wf(bounds),
    ensures
        settled(follow_iterate(c, t, factor, bounds, n), t, bounds),
        n <= gap(clamp_to(t.0, bounds), c.0) + gap(t.1, c.1) + 1,
        ({
            let rest = follow_iterate(c, t, factor, bounds, n);
            follow_point(rest.0, rest.1, t.0, t.1, factor, bounds) == rest
        }),
{
    if in_deadzone(c.0, c.1, t.0, t.1) {
        0
    } else {
        let next = follow_point(c.0, c.1, t.0, t.1, factor, bounds);
        lemma_step_toward_bounds(t.0 - c.0, factor);
        lemma_step_toward_bounds(t.1 - c.1, factor);
        assert(gap(clamp_to(t.0, bounds), next.0) <= gap(clamp_to(t.0, bounds), c.0));
        assert(gap(t.1, next.1) <= gap(t.1, c.1));
        let m = lemma_converges_within_bounds(next, t, factor, bounds);
        assert(follow_iterate(c, t, factor, bounds, m + 1) == follow_iterate(next, t, factor, bounds, m));
        lemma_settled_is_rest(follow_iterate(next, t, factor, bounds, m), t, factor, bounds);
        m + 1
    }
}

/// One frame of the follow camera: with no target the camera holds still;
/// otherwise it takes a follow step with the smoothing fraction for a frame of
/// `dt` microseconds at `FOLLOW_RATE`.
pub fn camera_follow_player(
    camera: Vec2i,
    target: Option<Vec2i>,
    dt: u64,
    bounds: Option<XRange>,
) -> (r: Vec2i)
    requires
        bounds_wf(bounds),
    ensures
        target is None ==> r == camera,
        target matches Some(t) ==> (r.x as int, r.y as int) == follow_point(
            camera.x as int,
            camera.y as int,
            t.x as int,
            t.y as int,
            lerp_factor_spec(FOLLOW_RATE as nat, dt as nat),
            bounds,
        ),
{
    match target {
        None => camera,
        Some(t) => {
            let factor = lerp_factor(FOLLOW_RATE, dt);
            follow_step(camera, t, factor, bounds)
        },
    }
}

} // verus!
