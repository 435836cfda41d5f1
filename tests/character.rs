use platformer_kit::geometry::Vec2i;
use platformer_kit::kinematic::{
    next_air_state, AirState, ContactReport, FrameInput, KinematicController,
};
use platformer_kit::velocity::{
    rotate_platform, velocity_jump, KeyboardMovable, Rotatable, VelocityCharacterController,
    DEFAULT_SPEED, JUMP_SPEED,
};

fn report(grounded: bool, dy: i64) -> ContactReport {
    ContactReport { grounded, dy }
}

#[test]
fn grounded_flag_follows_contact_reports() {
    let reports = [report(true, 0), report(false, 20), report(false, 50), report(true, 0)];
    let expected = [AirState::Grounded, AirState::Airborne, AirState::Airborne, AirState::Grounded];
    for start in [AirState::Grounded, AirState::Airborne, AirState::AirborneUsedDoubleJump] {
        let mut state = start;
        for (r, e) in reports.iter().zip(expected.iter()) {
            state = next_air_state(state, *r);
            assert_eq!(state, *e);
        }
    }
}

#[test]
fn small_vertical_move_counts_as_ground() {
    assert_eq!(next_air_state(AirState::Airborne, report(false, 9)), AirState::Grounded);
    assert_eq!(next_air_state(AirState::Airborne, report(false, -9)), AirState::Grounded);
    assert_eq!(next_air_state(AirState::Airborne, report(false, 10)), AirState::Airborne);
    assert_eq!(next_air_state(AirState::Grounded, report(false, 10)), AirState::Grounded);
    assert_eq!(next_air_state(AirState::Grounded, report(false, -11)), AirState::Airborne);
    assert_eq!(next_air_state(AirState::Grounded, report(true, 500)), AirState::Grounded);
    assert_eq!(
        next_air_state(AirState::AirborneUsedDoubleJump, report(false, 300)),
        AirState::AirborneUsedDoubleJump
    );
}

#[test]
fn double_jump_then_no_third_until_grounded() {
    let mut c = KinematicController { state: AirState::Grounded, pending: Vec2i::zero() };
    assert!(c.jump(true, false, false, 16_000));
    assert_eq!(c.state, AirState::Airborne);
    assert_eq!(c.pending, Vec2i::new(0, 64_000));
    assert!(c.jump(true, false, false, 16_000));
    assert_eq!(c.state, AirState::AirborneUsedDoubleJump);
    assert_eq!(c.pending, Vec2i::new(0, 128_000));
    assert!(!c.jump(true, false, false, 16_000));
    assert_eq!(c.pending, Vec2i::new(0, 128_000));
    c.observe(report(false, 400));
    assert!(!c.jump(true, false, false, 16_000));
    c.observe(report(true, 0));
    assert_eq!(c.state, AirState::Grounded);
    assert!(c.jump(true, false, false, 16_000));
}

#[test]
fn jump_needs_fresh_press() {
    let mut c = KinematicController { state: AirState::Grounded, pending: Vec2i::zero() };
    assert!(!c.jump(false, false, false, 16_000));
    assert_eq!(c, KinematicController { state: AirState::Grounded, pending: Vec2i::zero() });
}

#[test]
fn diagonal_jump_is_normalised() {
    let mut c = KinematicController { state: AirState::Grounded, pending: Vec2i::zero() };
    assert!(c.jump(true, false, true, 16_000));
    assert_eq!(c.pending, Vec2i::new(45_254, 45_254));
    let mut c = KinematicController { state: AirState::Grounded, pending: Vec2i::zero() };
    assert!(c.jump(true, true, false, 16_000));
    assert_eq!(c.pending, Vec2i::new(-45_254, 45_254));
    let mut c = KinematicController { state: AirState::Grounded, pending: Vec2i::zero() };
    assert!(c.jump(true, true, true, 16_000));
    assert_eq!(c.pending, Vec2i::new(0, 64_000));
}

#[test]
fn gravity_and_jump_add_up() {
    let mut c = KinematicController { state: AirState::Grounded, pending: Vec2i::zero() };
    c.apply_gravity(16_000);
    assert_eq!(c.pending, Vec2i::new(0, -1_569));
    assert!(c.jump(true, false, false, 16_000));
    assert_eq!(c.pending, Vec2i::new(0, 64_000 - 1_569));
    assert_eq!(c.take_motion(), Vec2i::new(0, 62_431));
    assert_eq!(c.pending, Vec2i::zero());
}

#[test]
fn lateral_movement_damped_in_air() {
    let mut c = KinematicController { state: AirState::Grounded, pending: Vec2i::zero() };
    c.move_lateral(false, true, 16_000);
    assert_eq!(c.pending, Vec2i::new(3_200, 0));
    let mut c = KinematicController::new();
    c.move_lateral(true, false, 16_000);
    assert_eq!(c.pending, Vec2i::new(-2_560, 0));
    c.move_lateral(true, true, 16_000);
    assert_eq!(c.pending, Vec2i::new(-2_560, 0));
}

#[test]
fn frame_update_composes_writers() {
    let mut c = KinematicController::new();
    let input = FrameInput { jump_pressed: true, left: false, right: false };
    let motion = c.update(Some(report(true, 0)), input, 16_000);
    assert_eq!(motion, Vec2i::new(0, 62_431));
    assert_eq!(c.state, AirState::Airborne);
    assert_eq!(c.pending, Vec2i::zero());
    let idle = FrameInput { jump_pressed: false, left: false, right: true };
    let motion = c.update(None, idle, 16_000);
    assert_eq!(motion, Vec2i::new(2_560, -1_569));
}

#[test]
fn velocity_controller_sets_speed() {
    let c = VelocityCharacterController::new(200_000);
    let v = Vec2i::new(7, -3);
    assert_eq!(c.player_movement(v, true, false), Vec2i::new(-200_000, -3));
    assert_eq!(c.player_movement(v, false, true), Vec2i::new(200_000, -3));
    assert_eq!(c.player_movement(v, true, true), v);
    assert_eq!(c.player_movement(v, false, false), v);
    assert_eq!(VelocityCharacterController::default().speed, DEFAULT_SPEED);
    assert_eq!(KeyboardMovable::default().speed, 2_500_000);
}

#[test]
fn velocity_jump_sets_upward_speed() {
    let v = Vec2i::new(9, -40);
    assert_eq!(velocity_jump(v, true), Vec2i::new(9, JUMP_SPEED));
    assert_eq!(velocity_jump(v, false), v);
}

#[test]
fn platform_spins_while_key_held() {
    assert_eq!(rotate_platform(100, Rotatable(3_000), true, 500_000), 1_600);
    assert_eq!(rotate_platform(100, Rotatable(-3_001), true, 500_000), 100 - 1_500);
    assert_eq!(rotate_platform(100, Rotatable(3_000), false, 500_000), 100);
}
