use lit_cube::angle::Angle;
use lit_cube::rotate::{checked_rotate_vector, rotate_vector};
use lit_cube::vector::Vector3;

fn angle(cos: i16, sin: i16, den: i16) -> Angle {
    Angle::new(cos, sin, den).expect("the fractions of an angle")
}

fn quarter() -> Angle {
    angle(0, 1, 1)
}

/// The angle of `degrees`, rounded to fractions over 16384.
fn degrees(degrees: f64) -> Angle {
    let radians = degrees.to_radians();
    angle((radians.cos() * 16384.0).round() as i16, (radians.sin() * 16384.0).round() as i16, 16384)
}

fn coordinates(v: Vector3) -> (f64, f64, f64) {
    (v.x as f64 / v.den as f64, v.y as f64 / v.den as f64, v.z as f64 / v.den as f64)
}

#[test]
fn angle_new_takes_fractions_of_an_angle_only() {
    assert_eq!(Angle::new(3, 4, 5), Some(Angle { cos: 3, sin: 4, den: 5 }));
    assert_eq!(Angle::new(-5, 5, 5), Some(Angle { cos: -5, sin: 5, den: 5 }));
    assert_eq!(Angle::new(1, 0, 0), None);
    assert_eq!(Angle::new(1, 0, -1), None);
    assert_eq!(Angle::new(6, 0, 5), None);
    assert_eq!(Angle::new(0, -6, 5), None);
    assert_eq!(Angle::zero(), Angle { cos: 1, sin: 0, den: 1 });
}

#[test]
fn vector_new_has_denominator_one() {
    assert_eq!(Vector3::new(3, -4, 2), Vector3 { x: 3, y: -4, z: 2, den: 1 });
}

#[test]
fn a_vector_needs_a_positive_denominator() {
    assert!(Vector3::new(0, 0, 0).is_wf());
    assert!(Vector3 { x: 1, y: 1, z: 1, den: i64::MAX }.is_wf());
    assert!(!Vector3 { x: 1, y: 1, z: 1, den: 0 }.is_wf());
    assert!(!Vector3 { x: 1, y: 1, z: 1, den: -1 }.is_wf());
}

#[test]
fn an_angle_needs_fractions_between_minus_one_and_one() {
    assert!(Angle::zero().is_wf());
    assert!(Angle { cos: -3, sin: 3, den: 3 }.is_wf());
    assert!(Angle { cos: 0, sin: 0, den: 1 }.is_wf());
    assert!(!Angle { cos: 0, sin: 0, den: 0 }.is_wf());
    assert!(!Angle { cos: 1, sin: 0, den: -1 }.is_wf());
    assert!(!Angle { cos: 4, sin: 0, den: 3 }.is_wf());
    assert!(!Angle { cos: -4, sin: 0, den: 3 }.is_wf());
    assert!(!Angle { cos: 0, sin: 4, den: 3 }.is_wf());
    assert!(!Angle { cos: 0, sin: -4, den: 3 }.is_wf());
    assert!(!Angle { cos: 0, sin: 0, den: i16::MIN }.is_wf());
}

#[test]
fn rotating_by_zero_is_the_identity() {
    let zero = Angle::zero();
    for v in [
        Vector3::new(0, 0, 0),
        Vector3::new(1, 2, 3),
        Vector3::new(-7, 11, -13),
        Vector3 { x: 5, y: -6, z: 7, den: 9 },
        Vector3 { x: i64::MAX, y: i64::MIN, z: 0, den: i64::MAX },
    ] {
        assert_eq!(rotate_vector(v, zero, zero, zero), v);
    }
}

#[test]
fn rotating_by_zero_over_another_denominator_keeps_the_point() {
    let zero = angle(4, 0, 4);
    let v = Vector3 { x: 5, y: -6, z: 7, den: 9 };
    let r = rotate_vector(v, zero, zero, zero);
    assert_eq!(r, Vector3 { x: 5 * 64, y: -6 * 64, z: 7 * 64, den: 9 * 64 });
    assert_eq!(coordinates(r), coordinates(v));
}

#[test]
fn each_axis_turns_its_own_plane() {
    let zero = Angle::zero();
    let a = angle(3, 4, 5);
    let v = Vector3 { x: 1, y: 2, z: 3, den: 2 };
    assert_eq!(rotate_vector(v, zero, a, zero), Vector3 { x: -9, y: 10, z: 13, den: 10 });
    assert_eq!(rotate_vector(v, a, zero, zero), Vector3 { x: 5, y: -6, z: 17, den: 10 });
    assert_eq!(rotate_vector(v, zero, zero, a), Vector3 { x: -5, y: 10, z: 15, den: 10 });
}

#[test]
fn three_turns_compose_in_the_order_y_x_z() {
    let r = rotate_vector(
        Vector3::new(1, 2, 3),
        angle(3, 4, 5),
        angle(5, 12, 13),
        angle(8, 15, 17),
    );
    assert_eq!(r, Vector3 { x: -790, y: -2565, z: 3145, den: 1105 });
}

#[test]
fn the_order_of_the_axes_matters() {
    let zero = Angle::zero();
    let v = Vector3::new(0, 0, 1);
    // About Y first: +Z goes to -X, which a turn about X then leaves alone.
    assert_eq!(rotate_vector(v, quarter(), quarter(), zero), Vector3::new(-1, 0, 0));
    // About X alone: +Z goes to -Y.
    assert_eq!(rotate_vector(v, quarter(), zero, zero), Vector3::new(0, -1, 0));
    assert_eq!(
        rotate_vector(Vector3::new(1, 0, 0), quarter(), quarter(), zero),
        Vector3::new(0, -1, 0),
    );
    assert_eq!(
        rotate_vector(Vector3::new(0, 1, 0), zero, quarter(), quarter()),
        Vector3::new(-1, 0, 0),
    );
    assert_eq!(
        rotate_vector(Vector3::new(1, 0, 0), zero, quarter(), quarter()),
        Vector3::new(0, 0, 1),
    );
}

#[test]
fn quarter_turn_about_y_takes_z_to_minus_x() {
    let zero = Angle::zero();
    let r = rotate_vector(Vector3::new(0, 0, 1), zero, quarter(), zero);
    assert_eq!(r, Vector3::new(-1, 0, 0));
}

#[test]
fn quarter_turn_about_y_from_rounded_cosines() {
    let r = rotate_vector(Vector3::new(0, 0, 1), degrees(0.0), degrees(90.0), degrees(0.0));
    let (x, y, z) = coordinates(r);
    assert!((x - -1.0).abs() <= 1e-4);
    assert!(y.abs() <= 1e-4);
    assert!(z.abs() <= 1e-4);
}

#[test]
fn rounded_cosines_stay_close_to_the_rotation() {
    let r = rotate_vector(Vector3::new(0, 0, 1), degrees(20.0), degrees(30.0), degrees(25.0));
    assert_eq!(r, Vector3 {
        x: -1442436102928,
        y: -2110044100116,
        z: 3579147780096,
        den: 4398046511104,
    });
    let (ax, ay, az) = (20f64.to_radians(), 30f64.to_radians(), 25f64.to_radians());
    let (x1, y1, z1) = (-ay.sin(), 0.0, ay.cos());
    let (x2, y2, z2) = (x1, y1 * ax.cos() - z1 * ax.sin(), y1 * ax.sin() + z1 * ax.cos());
    let (x3, y3, z3) = (x2 * az.cos() - y2 * az.sin(), x2 * az.sin() + y2 * az.cos(), z2);
    let (x, y, z) = coordinates(r);
    assert!((x - x3).abs() <= 1e-4);
    assert!((y - y3).abs() <= 1e-4);
    assert!((z - z3).abs() <= 1e-4);
}

#[test]
fn rotation_adds() {
    let (ax, ay, az) = (angle(3, 4, 5), angle(5, 12, 13), angle(8, 15, 17));
    let u = Vector3 { x: 4, y: -9, z: 2, den: 3 };
    let v = Vector3 { x: -7, y: 1, z: 6, den: 3 };
    let sum = Vector3 { x: u.x + v.x, y: u.y + v.y, z: u.z + v.z, den: 3 };
    let ru = rotate_vector(u, ax, ay, az);
    let rv = rotate_vector(v, ax, ay, az);
    let rsum = rotate_vector(sum, ax, ay, az);
    assert_eq!(ru.den, rv.den);
    assert_eq!(rsum, Vector3 { x: ru.x + rv.x, y: ru.y + rv.y, z: ru.z + rv.z, den: ru.den });
}

#[test]
fn rotation_adds_over_any_denominators() {
    let (ax, ay, az) = (angle(3, 4, 5), angle(5, 12, 13), angle(8, 15, 17));
    let u = Vector3 { x: 4, y: -9, z: 2, den: 3 };
    let v = Vector3 { x: -7, y: 1, z: 6, den: 5 };
    // u + v over the denominator 15
    let sum = Vector3 { x: 4 * 5 - 7 * 3, y: -9 * 5 + 3, z: 2 * 5 + 6 * 3, den: 15 };
    let ru = rotate_vector(u, ax, ay, az);
    let rv = rotate_vector(v, ax, ay, az);
    let rsum = rotate_vector(sum, ax, ay, az);
    // the sum of the two rotated vectors over the product of their denominators
    let added = Vector3 {
        x: ru.x * rv.den + rv.x * ru.den,
        y: ru.y * rv.den + rv.y * ru.den,
        z: ru.z * rv.den + rv.z * ru.den,
        den: ru.den * rv.den,
    };
    assert!(added.same_point(&rsum));
    assert_ne!(added, rsum);
}

#[test]
fn rotation_does_not_depend_on_how_a_point_is_written() {
    let (ax, ay, az) = (angle(3, 4, 5), angle(5, 12, 13), angle(8, 15, 17));
    let r = rotate_vector(Vector3 { x: 4, y: -9, z: 2, den: 3 }, ax, ay, az);
    let other = rotate_vector(Vector3 { x: 28, y: -63, z: 14, den: 21 }, ax, ay, az);
    assert!(r.same_point(&other));
    assert_ne!(r, other);
}

#[test]
fn same_point_compares_the_fractions() {
    let v = Vector3 { x: 4, y: -9, z: 2, den: 3 };
    assert!(v.same_point(&v));
    assert!(v.same_point(&Vector3 { x: 28, y: -63, z: 14, den: 21 }));
    assert!(!v.same_point(&Vector3 { x: 28, y: -63, z: 15, den: 21 }));
    assert!(!v.same_point(&Vector3 { x: 28, y: -62, z: 14, den: 21 }));
    assert!(!v.same_point(&Vector3 { x: 27, y: -63, z: 14, den: 21 }));
    assert!(!v.same_point(&Vector3 { x: 4, y: -9, z: 2, den: 4 }));
    let far = Vector3 { x: i64::MAX, y: i64::MIN, z: i64::MAX, den: i64::MAX };
    assert!(far.same_point(&far));
    assert!(!far.same_point(&Vector3 { x: i64::MAX, y: i64::MIN, z: i64::MAX, den: i64::MAX - 1 }));
}

#[test]
fn rotation_scales() {
    let (ax, ay, az) = (angle(3, 4, 5), angle(5, 12, 13), angle(8, 15, 17));
    let v = Vector3 { x: -7, y: 1, z: 6, den: 3 };
    let r = rotate_vector(v, ax, ay, az);
    // -5/2 times the vector
    let scaled = Vector3 { x: -5 * v.x, y: -5 * v.y, z: -5 * v.z, den: 2 * v.den };
    assert_eq!(
        rotate_vector(scaled, ax, ay, az),
        Vector3 { x: -5 * r.x, y: -5 * r.y, z: -5 * r.z, den: 2 * r.den }
    );
}

#[test]
fn rotation_keeps_no_state_between_calls() {
    let (ax, ay, az) = (angle(3, 4, 5), angle(5, 12, 13), angle(8, 15, 17));
    let v = Vector3::new(1, 2, 3);
    let first = rotate_vector(v, ax, ay, az);
    let _ = rotate_vector(Vector3::new(9, 9, 9), az, ax, ay);
    assert_eq!(rotate_vector(v, ax, ay, az), first);
}

#[test]
fn checked_rotation_agrees_where_the_result_fits() {
    let (ax, ay, az) = (angle(3, 4, 5), angle(5, 12, 13), angle(8, 15, 17));
    let v = Vector3::new(1, 2, 3);
    assert_eq!(checked_rotate_vector(v, ax, ay, az), Some(rotate_vector(v, ax, ay, az)));
    let zero = Angle::zero();
    let edge = Vector3 { x: i64::MAX, y: i64::MIN, z: -1, den: i64::MAX };
    assert_eq!(checked_rotate_vector(edge, zero, zero, zero), Some(edge));
}

#[test]
fn checked_rotation_gives_nothing_where_the_result_does_not_fit() {
    let zero = Angle::zero();
    let two = angle(2, 0, 2);
    // the denominator doubles past the largest i64
    let v = Vector3 { x: 0, y: 0, z: 1, den: i64::MAX };
    assert_eq!(checked_rotate_vector(v, zero, two, zero), None);
    // a numerator does
    let v = Vector3 { x: i64::MAX / 2 + 1, y: 0, z: 0, den: 1 };
    assert_eq!(checked_rotate_vector(v, zero, zero, two), None);
    let v = Vector3 { x: i64::MIN, y: 0, z: 0, den: 1 };
    assert_eq!(checked_rotate_vector(v, zero, zero, angle(-1, 0, 1)), None);
    let big = angle(32767, 0, 32767);
    let v = Vector3::new(1 << 20, 0, 0);
    assert_eq!(checked_rotate_vector(v, big, big, big), None);
}

#[test]
fn checked_rotation_gives_nothing_for_what_is_not_well_formed() {
    let zero = Angle::zero();
    let v = Vector3::new(1, 2, 3);
    assert_eq!(checked_rotate_vector(Vector3 { x: 1, y: 2, z: 3, den: 0 }, zero, zero, zero), None);
    assert_eq!(
        checked_rotate_vector(Vector3 { x: 1, y: 2, z: 3, den: -1 }, zero, zero, zero),
        None,
    );
    let bad = Angle { cos: 1, sin: 0, den: 0 };
    assert_eq!(checked_rotate_vector(v, bad, zero, zero), None);
    assert_eq!(checked_rotate_vector(v, zero, bad, zero), None);
    assert_eq!(checked_rotate_vector(v, zero, zero, bad), None);
    let long = Angle { cos: 2, sin: 0, den: 1 };
    assert_eq!(checked_rotate_vector(v, zero, long, zero), None);
}
