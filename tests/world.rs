use platformer_kit::arena::{boundary_walls, grid_coords_to_translation, wall_collider, ColliderBox};
use platformer_kit::geometry::Vec2i;
use platformer_kit::keyboard::{keyboard_step, MoveKeys};
use platformer_kit::screen::{
    despawn_out_of_screen, detect_clicked_grid, floor_sqrt, is_out_of_screen,
};
use platformer_kit::spawn::{ball_from_draws, spawn_ball, toggle_spawn_timer, BallSpawn, SpawnKeys, SpawnSettings};

fn keys(left: bool, right: bool, up: bool, down: bool) -> MoveKeys {
    MoveKeys { left, right, up, down }
}

#[test]
fn keyboard_straight_and_diagonal_steps() {
    assert_eq!(keyboard_step(keys(false, true, false, false), 1_000_000, 16_000), Vec2i::new(16_000, 0));
    assert_eq!(keyboard_step(keys(false, false, false, true), 1_000_000, 16_000), Vec2i::new(0, -16_000));
    assert_eq!(keyboard_step(keys(true, false, true, false), 1_000_000, 16_000), Vec2i::new(-11_313, 11_313));
    assert_eq!(keyboard_step(keys(true, true, true, true), 1_000_000, 16_000), Vec2i::new(0, 0));
}

#[test]
fn spawn_keys_toggle_and_resize() {
    let mut s = SpawnSettings { enabled: true, ball_size: 10_000 };
    toggle_spawn_timer(&mut s, SpawnKeys { toggle: true, grow: false, shrink: false });
    assert_eq!(s, SpawnSettings { enabled: false, ball_size: 10_000 });
    toggle_spawn_timer(&mut s, SpawnKeys { toggle: false, grow: true, shrink: false });
    assert_eq!(s.ball_size, 20_000);
    toggle_spawn_timer(&mut s, SpawnKeys { toggle: true, grow: false, shrink: true });
    assert_eq!(s, SpawnSettings { enabled: true, ball_size: 10_000 });
    toggle_spawn_timer(&mut s, SpawnKeys { toggle: false, grow: true, shrink: true });
    assert_eq!(s.ball_size, 10_000);
}

#[test]
fn spawned_balls_stay_in_ranges() {
    let settings = SpawnSettings { enabled: true, ball_size: 10_000 };
    let mut radii = Vec::new();
    for _ in 0..300 {
        let b = spawn_ball(&settings);
        assert!(b.radius >= 10_000 && b.radius < 20_000);
        assert!(b.velocity.x >= -3_000_000 && b.velocity.x < 3_000_000);
        assert!(b.velocity.y >= -3_000_000 && b.velocity.y < 3_000_000);
        assert_eq!(b.velocity.x % 1000, 0);
        radii.push(b.radius);
    }
    assert!(radii.iter().any(|r| *r != 10_000));
    let small = SpawnSettings { enabled: true, ball_size: -40_000 };
    for _ in 0..50 {
        let b = spawn_ball(&small);
        assert!(b.radius >= 5_000 && b.radius < 10_000);
    }
}

#[test]
fn boundary_walls_surround_screen() {
    let w = boundary_walls(1_280_000, 720_000, 10_000);
    let across = Vec2i::new(640_000, 5_000);
    let upright = Vec2i::new(5_000, 360_000);
    assert_eq!(w.bottom, ColliderBox { center: Vec2i::new(0, -360_000), half_extents: across });
    assert_eq!(w.top, ColliderBox { center: Vec2i::new(0, 360_000), half_extents: across });
    assert_eq!(w.left, ColliderBox { center: Vec2i::new(-640_000, 0), half_extents: upright });
    assert_eq!(w.right, ColliderBox { center: Vec2i::new(640_000, 0), half_extents: upright });
}

#[test]
fn wall_tile_collider_is_centred() {
    let c = wall_collider(Vec2i::new(32_000, -16_000));
    assert_eq!(c, ColliderBox { center: Vec2i::new(40_000, -8_000), half_extents: Vec2i::new(8_000, 8_000) });
}

#[test]
fn grid_cell_centres() {
    assert_eq!(grid_coords_to_translation(0, 0, 16, 16), Vec2i::new(8_000, 8_000));
    assert_eq!(grid_coords_to_translation(3, -2, 16, 16), Vec2i::new(56_000, -24_000));
}

#[test]
fn out_of_screen_detection() {
    let camera = Vec2i::new(0, 0);
    assert!(!is_out_of_screen(Vec2i::new(740_000, 0), camera, 640_000, 360_000));
    assert!(is_out_of_screen(Vec2i::new(740_001, 0), camera, 640_000, 360_000));
    assert!(is_out_of_screen(Vec2i::new(0, -460_001), camera, 640_000, 360_000));
    let flags = despawn_out_of_screen(
        &vec![Vec2i::new(0, 0), Vec2i::new(-800_000, 0), Vec2i::new(0, 460_000)],
        camera,
        640_000,
        360_000,
    );
    assert_eq!(flags, vec![false, true, false]);
}

#[test]
fn floor_sqrt_values() {
    assert_eq!(floor_sqrt(0), 0);
    assert_eq!(floor_sqrt(15), 3);
    assert_eq!(floor_sqrt(16), 4);
    assert_eq!(floor_sqrt(u128::MAX), u64::MAX);
}

#[test]
fn clicked_tile_is_first_nearest_within_radius() {
    let tiles = vec![Vec2i::new(0, 0), Vec2i::new(20_000, 0), Vec2i::new(20_500, 0)];
    assert_eq!(detect_clicked_grid(&tiles, Vec2i::new(19_000, 0)), Some(1));
    assert_eq!(detect_clicked_grid(&tiles, Vec2i::new(20_400, 0)), Some(1));
    assert_eq!(detect_clicked_grid(&tiles, Vec2i::new(0, 29_999)), Some(0));
    assert_eq!(detect_clicked_grid(&tiles, Vec2i::new(-30_000, 0)), None);
    assert_eq!(detect_clicked_grid(&vec![], Vec2i::new(0, 0)), None);
}

#[test]
fn ball_built_from_draws() {
    assert_eq!(
        ball_from_draws(-2_999, 1_500, 12_345),
        BallSpawn { velocity: Vec2i::new(-2_999_000, 1_500_000), radius: 12_345 }
    );
}

#[test]
fn spawned_velocities_vary() {
    let settings = SpawnSettings { enabled: true, ball_size: 10_000 };
    let first = spawn_ball(&settings).velocity;
    assert!((0..100).any(|_| spawn_ball(&settings).velocity != first));
}
