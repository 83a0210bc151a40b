use lit_cube::angle::Angle;
use lit_cube::color::Color;
use lit_cube::frame::{lit_cube_color, Config, RotationState, FINE_DENOMINATOR};
use lit_cube::vector::Vector3;

fn base() -> Color {
    Color::new(100, 150, 255, 255)
}

/// The angle of so many millionths of a degree, rounded to fractions over
/// 16384.
fn angle_of(micro_degrees: u64) -> Angle {
    let radians = (micro_degrees as f64 / 1_000_000.0).to_radians();
    Angle::new(
        (radians.cos() * 16384.0).round() as i16,
        (radians.sin() * 16384.0).round() as i16,
        16384,
    )
        .expect("the fractions of an angle")
}

#[test]
fn the_scene_has_its_constants() {
    let config = Config::new();
    assert_eq!(config.angular_velocity_x, 20);
    assert_eq!(config.angular_velocity_y, 30);
    assert_eq!(config.angular_velocity_z, 25);
    assert_eq!(config.light_position, Vector3::new(3, 4, 2));
    assert_eq!(config.ambient_intensity, 300);
    assert_eq!(config.diffuse_intensity, 700);
}

#[test]
fn the_cube_starts_unturned() {
    assert_eq!(RotationState::new(), RotationState { x: 0, y: 0, z: 0 });
}

#[test]
fn one_second_turns_by_the_angular_velocities() {
    let config = Config::new();
    let mut state = RotationState::new();
    assert!(state.can_advance(&config, 1_000_000));
    state.advance(&config, 1_000_000);
    // 20, 30 and 25 degrees
    assert_eq!(state, RotationState { x: 20_000_000, y: 30_000_000, z: 25_000_000 });
}

#[test]
fn frames_add_up() {
    let config = Config::new();
    let mut state = RotationState::new();
    for _ in 0..60 {
        state.advance(&config, 16_667);
    }
    assert_eq!(
        state,
        RotationState { x: 20 * 60 * 16_667, y: 30 * 60 * 16_667, z: 25 * 60 * 16_667 },
    );
    state.advance(&config, 0);
    assert_eq!(
        state,
        RotationState { x: 20 * 60 * 16_667, y: 30 * 60 * 16_667, z: 25 * 60 * 16_667 },
    );
}

#[test]
fn angles_never_decrease() {
    let config = Config::new();
    let mut state = RotationState::new();
    for micros in [0u32, 1, 999, 16_667, 1_000_000, u32::MAX] {
        let before = state;
        state.advance(&config, micros);
        assert!(state.x >= before.x && state.y >= before.y && state.z >= before.z);
    }
}

#[test]
fn advance_is_refused_only_at_the_end_of_the_range() {
    let config = Config::new();
    let state = RotationState { x: u64::MAX - 20, y: u64::MAX - 30, z: u64::MAX - 25 };
    assert!(state.can_advance(&config, 0));
    assert!(state.can_advance(&config, 1));
    assert!(!state.can_advance(&config, 2));
    assert!(!RotationState { x: u64::MAX - 19, y: 0, z: 0 }.can_advance(&config, 1));
    assert!(!RotationState { x: 0, y: u64::MAX - 29, z: 0 }.can_advance(&config, 1));
    assert!(!RotationState { x: 0, y: 0, z: u64::MAX - 24 }.can_advance(&config, 1));
    let fast = Config { angular_velocity_x: u32::MAX, ..config };
    assert!(RotationState::new().can_advance(&fast, u32::MAX));
    let mut last = state;
    last.advance(&config, 1);
    assert_eq!(last, RotationState { x: u64::MAX, y: u64::MAX, z: u64::MAX });
}

#[test]
fn the_resting_cube() {
    let zero = Angle::zero();
    let color = lit_cube_color(&Config::new(), Vector3::new(0, 0, 0), base(), zero, zero, zero);
    // the faces have red 55, 81 and 68: see the shading tests
    assert_eq!(color, Some(Color::new(26, 40, 68, 255)));
}

#[test]
fn the_cube_after_one_second() {
    let config = Config::new();
    let mut state = RotationState::new();
    state.advance(&config, 1_000_000);
    let color = lit_cube_color(
        &config,
        Vector3::new(0, 0, 0),
        base(),
        angle_of(state.x),
        angle_of(state.y),
        angle_of(state.z),
    );
    // the faces have red 30, 67 and 86
    assert_eq!(color, Some(Color::new(23, 35, 61, 255)));
}

/// The angle of so many millionths of a degree, rounded to fractions over
/// the fine denominator.
fn fine_angle_of(micro_degrees: u64) -> Angle {
    let radians = (micro_degrees as f64 / 1_000_000.0).to_radians();
    let unit = f64::from(FINE_DENOMINATOR);
    Angle::new(
        (radians.cos() * unit).round() as i16,
        (radians.sin() * unit).round() as i16,
        FINE_DENOMINATOR,
    )
        .expect("the fractions of an angle")
}

#[test]
fn the_fine_denominator() {
    assert_eq!(FINE_DENOMINATOR, 8192);
}

#[test]
fn the_cube_through_a_full_turn() {
    let config = Config::new();
    let mut state = RotationState::new();
    for _ in 0..1080 {
        state.advance(&config, 16_667);
        let color = lit_cube_color(
            &config,
            Vector3::new(0, 0, 0),
            base(),
            fine_angle_of(state.x),
            fine_angle_of(state.y),
            fine_angle_of(state.z),
        );
        let color = color.expect("the scene is within the limits");
        assert_eq!(color.a, 255);
        // each face has a red between 30, in ambient light, and 100, in full light
        assert!((100 * 90 / 765..=100 * 300 / 765).contains(&u32::from(color.r)));
        assert!((150 * 90 / 765..=150 * 300 / 765).contains(&u32::from(color.g)));
        assert!((255 * 90 / 765..=255 * 300 / 765).contains(&u32::from(color.b)));
    }
}

#[test]
fn a_cube_at_the_light_has_no_color() {
    let zero = Angle::zero();
    let config = Config::new();
    assert_eq!(lit_cube_color(&config, config.light_position, base(), zero, zero, zero), None);
}

#[test]
fn a_cube_that_is_not_well_formed_has_no_color() {
    let zero = Angle::zero();
    let bad = Angle { cos: 1, sin: 0, den: 0 };
    let config = Config::new();
    let origin = Vector3::new(0, 0, 0);
    assert_eq!(lit_cube_color(&config, origin, base(), bad, zero, zero), None);
    assert_eq!(lit_cube_color(&config, origin, base(), zero, bad, zero), None);
    assert_eq!(lit_cube_color(&config, origin, base(), zero, zero, bad), None);
    assert_eq!(
        lit_cube_color(&config, Vector3 { x: 0, y: 0, z: 0, den: 0 }, base(), zero, zero, zero),
        None,
    );
    let dark = Config { light_position: Vector3 { x: 3, y: 4, z: 2, den: 0 }, ..config };
    assert_eq!(lit_cube_color(&dark, origin, base(), zero, zero, zero), None);
}

#[test]
fn a_cube_beyond_the_limits_has_no_color() {
    let zero = Angle::zero();
    let fine = Angle::new(32767, 0, 32767).expect("the fractions of an angle");
    let config = Config::new();
    // three denominators of 32767 make a normal too fine for the lighting
    assert_eq!(lit_cube_color(&config, Vector3::new(0, 0, 0), base(), fine, fine, fine), None);
    assert!(lit_cube_color(&config, Vector3::new(0, 0, 0), base(), fine, fine, zero).is_some());
    let far = Config { light_position: Vector3::new(0, 0, i64::MAX), ..config };
    assert_eq!(lit_cube_color(&far, Vector3::new(0, 0, 0), base(), zero, zero, zero), None);
}

/// The cube's colour as floating point gives it: the three normals rotated
/// about Y, X and Z, each face shaded by `min(1, 0.3 + 0.7 * max(0, n . l))`,
/// and the base colour scaled by the average red of the faces.
fn floating_cube_color(degrees_x: f64, degrees_y: f64, degrees_z: f64) -> Color {
    let (ax, ay, az) = (degrees_x.to_radians(), degrees_y.to_radians(), degrees_z.to_radians());
    let length = (3.0f64 * 3.0 + 4.0 * 4.0 + 2.0 * 2.0).sqrt();
    let light = (3.0 / length, 4.0 / length, 2.0 / length);
    let mut red_sum = 0.0;
    for normal in [(0.0, 0.0, 1.0), (0.0, 1.0, 0.0), (1.0, 0.0, 0.0)] {
        let (x, y, z): (f64, f64, f64) = normal;
        let (x, z) = (x * ay.cos() - z * ay.sin(), x * ay.sin() + z * ay.cos());
        let (y, z) = (y * ax.cos() - z * ax.sin(), y * ax.sin() + z * ax.cos());
        let (x, y) = (x * az.cos() - y * az.sin(), x * az.sin() + y * az.cos());
        let facing = (x * light.0 + y * light.1 + z * light.2).max(0.0);
        let lighting = (0.3 + 0.7 * facing).min(1.0);
        red_sum += (100.0 * lighting).floor();
    }
    let average = red_sum / (3.0 * 255.0);
    Color::new((100.0 * average) as u8, (150.0 * average) as u8, (255.0 * average) as u8, 255)
}

#[test]
fn the_turning_cube_stays_within_one_level_of_floating_point() {
    let config = Config::new();
    let mut state = RotationState::new();
    for _ in 0..3000 {
        state.advance(&config, 116_669);
        let exact = lit_cube_color(
            &config,
            Vector3::new(0, 0, 0),
            base(),
            fine_angle_of(state.x),
            fine_angle_of(state.y),
            fine_angle_of(state.z),
        )
        .expect("the scene is within the limits");
        let floating = floating_cube_color(
            state.x as f64 / 1_000_000.0,
            state.y as f64 / 1_000_000.0,
            state.z as f64 / 1_000_000.0,
        );
        assert!(exact.r.abs_diff(floating.r) <= 1);
        assert!(exact.g.abs_diff(floating.g) <= 1);
        assert!(exact.b.abs_diff(floating.b) <= 1);
        assert_eq!(exact.a, floating.a);
    }
}
