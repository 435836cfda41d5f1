use platformer_kit::camera::{
    camera_follow_player, follow_step, lerp_factor, XRange, DEADZONE, FACTOR_ONE, FOLLOW_RATE,
};
use platformer_kit::geometry::Vec2i;
use platformer_kit::level::{camera_x_range, Level, LevelBounds};

#[test]
fn lerp_factor_exact_values() {
    assert_eq!(lerp_factor(FOLLOW_RATE, 0), 0);
    assert_eq!(lerp_factor(FOLLOW_RATE, 16_000), 76_884);
    assert_eq!(lerp_factor(FOLLOW_RATE, 100_000), 393_470);
    assert_eq!(lerp_factor(FOLLOW_RATE, 1_000_000), 993_263);
}

#[test]
fn lerp_factor_within_one_millionth_of_exponential() {
    for dt in (0u64..3_000_000).step_by(977) {
        let exact = 1_000_000.0 * (1.0 - (-(5.0 * dt as f64) / 1_000_000.0).exp());
        let got = lerp_factor(FOLLOW_RATE, dt) as f64;
        assert!((got - exact).abs() <= 1.0, "dt {} gave {} for {}", dt, got, exact);
    }
}

#[test]
fn follow_step_one_second_frame() {
    let f = lerp_factor(FOLLOW_RATE, 1_000_000);
    let moved = follow_step(Vec2i::new(0, 0), Vec2i::new(100_000, 0), f, None);
    assert_eq!(moved, Vec2i::new(99_327, 0));
}

#[test]
fn lerp_factor_saturates_at_one() {
    assert_eq!(lerp_factor(FOLLOW_RATE, 1_000_000_000_000), FACTOR_ONE);
    assert_eq!(lerp_factor(u64::MAX, u64::MAX), FACTOR_ONE);
}

#[test]
fn lerp_factor_stays_in_unit_range_and_grows_with_dt() {
    let mut last = 0;
    for dt in [0u64, 1, 10, 1_000, 8_000, 16_000, 33_333, 250_000, 1_000_000, 10_000_000] {
        let f = lerp_factor(FOLLOW_RATE, dt);
        assert!(f <= FACTOR_ONE);
        assert!(f >= last);
        last = f;
    }
}

#[test]
fn follow_inside_deadzone_is_a_no_op() {
    let camera = Vec2i::new(1_000, 2_000);
    let target = Vec2i::new(1_000 + 6_000, 2_000 + 8_000);
    assert_eq!(follow_step(camera, target, 500_000, None), camera);
    let on_edge = Vec2i::new(1_000 + DEADZONE, 2_000);
    assert_eq!(follow_step(camera, on_edge, FACTOR_ONE, None), camera);
}

#[test]
fn follow_moves_a_fraction_of_the_way() {
    let camera = Vec2i::new(0, 0);
    let target = Vec2i::new(100_000, -100_000);
    let f = lerp_factor(FOLLOW_RATE, 16_000);
    assert_eq!(follow_step(camera, target, f, None), Vec2i::new(7_689, -7_689));
    assert_eq!(follow_step(camera, target, FACTOR_ONE, None), target);
}

#[test]
fn follow_without_target_holds_camera() {
    let camera = Vec2i::new(5, 7);
    assert_eq!(camera_follow_player(camera, None, 16_000, None), camera);
    let moved = camera_follow_player(camera, Some(Vec2i::new(100_005, 7)), 16_000, None);
    assert_eq!(moved, Vec2i::new(5 + 7_689, 7));
}

#[test]
fn repeated_follow_converges_to_target() {
    let target = Vec2i::new(500_000, -200_000);
    let f = lerp_factor(FOLLOW_RATE, 16_000);
    let mut camera = Vec2i::new(0, 0);
    let mut steps = 0;
    loop {
        let next = follow_step(camera, target, f, None);
        if next == camera {
            break;
        }
        camera = next;
        steps += 1;
        assert!(steps < 10_000);
    }
    let dx = (target.x - camera.x) as i128;
    let dy = (target.y - camera.y) as i128;
    assert!(dx * dx + dy * dy <= (DEADZONE as i128) * (DEADZONE as i128));
    assert_eq!(camera, Vec2i::new(490_849, -196_343));
}

#[test]
fn camera_clamped_to_level_bounds() {
    let bounds = LevelBounds { min_x: 0, min_y: 0, max_x: 1_000_000, max_y: 500_000 };
    let range = camera_x_range(bounds, 100_000).unwrap();
    assert_eq!(range, XRange { min_x: 100_000, max_x: 900_000 });
    let f = lerp_factor(FOLLOW_RATE, 16_000);
    for target_x in [-5_000_000i64, -1, 0, 50_000, 450_000, 950_000, 2_000_000, i64::MAX] {
        let mut camera = Vec2i::new(500_000, 0);
        for _ in 0..500 {
            camera = follow_step(camera, Vec2i::new(target_x, 0), f, Some(range));
            assert!(camera.x >= 100_000 && camera.x <= 900_000);
        }
    }
    let mut camera = Vec2i::new(500_000, 0);
    for _ in 0..1000 {
        camera = follow_step(camera, Vec2i::new(2_000_000, 0), FACTOR_ONE, Some(range));
    }
    assert_eq!(camera, Vec2i::new(900_000, 0));
}

#[test]
fn camera_range_of_narrow_level_is_none() {
    let bounds = LevelBounds { min_x: 0, min_y: 0, max_x: 150_000, max_y: 0 };
    assert_eq!(camera_x_range(bounds, 100_000), None);
    let exact = LevelBounds { min_x: 0, min_y: 0, max_x: 200_000, max_y: 0 };
    assert_eq!(camera_x_range(exact, 100_000), Some(XRange { min_x: 100_000, max_x: 100_000 }));
}

#[test]
fn level_bounds_from_origin_and_size() {
    let level = Level { id: 3, origin: Vec2i::new(-16_000, 32_000), px_wid: 256, px_hei: 128 };
    assert_eq!(
        level.bounds(),
        LevelBounds { min_x: -16_000, min_y: 32_000, max_x: 240_000, max_y: 160_000 }
    );
}
