//! Rotation scenarios: axis-angle rotations with exactly representable
//! sines and cosines, checked against the classical results.

use endless::position::Position;
use endless::scalar::SCALE;
use endless::GeometryError;

const TOL: i64 = 16;

fn assert_close(actual: i64, expected: i64) {
    let diff = if actual >= expected {
        actual - expected
    } else {
        expected - actual
    };
    assert!(diff <= TOL, "actual {} expected {}", actual, expected);
}

/// Rotating one unit along x by a quarter turn about the z axis lands one
/// unit along y, exactly.
#[test]
fn test_rotate() {
    let position = Position::new(SCALE, 0, 0, SCALE);
    let origin = Position::new(0, 0, 0, SCALE);
    let axis = Position::new(0, 0, SCALE, SCALE);

    // a quarter turn: sine one, cosine zero
    let rotated = position.rotate(SCALE, 0, origin, axis).unwrap();

    assert_eq!(rotated.x, 0);
    assert_eq!(rotated.y, SCALE);
    assert_eq!(rotated.z, 0);
    assert_eq!(rotated.w, SCALE);
}

/// Rotating one unit along x by a half turn about the diagonal (1, 1, 0)
/// axis lands one unit along y.
#[test]
fn test_rotate_2() {
    let position = Position::new(SCALE, 0, 0, SCALE);
    let origin = Position::new(0, 0, 0, SCALE);
    let axis = Position::new(SCALE, SCALE, 0, SCALE);

    // a half turn: sine zero, cosine minus one
    let rotated = position.rotate(0, -SCALE, origin, axis).unwrap();

    assert_close(rotated.x, 0);
    assert_close(rotated.y, SCALE);
    assert_close(rotated.z, 0);
    assert_eq!(rotated.w, SCALE);
}

/// A point on the rotation axis is invariant: rotating (1, 1, 1) by a half
/// turn about the (1, 1, 1) axis returns it unchanged.
#[test]
fn test_rotate_3() {
    let position = Position::new(SCALE, SCALE, SCALE, SCALE);
    let origin = Position::new(0, 0, 0, SCALE);
    let axis = Position::new(SCALE, SCALE, SCALE, SCALE);

    let rotated = position.rotate(0, -SCALE, origin, axis).unwrap();

    assert_close(rotated.x, SCALE);
    assert_close(rotated.y, SCALE);
    assert_close(rotated.z, SCALE);
    assert_eq!(rotated.w, SCALE);
}

/// Rotating one unit along x by a half turn about the z axis lands at minus
/// one unit along x, exactly.
#[test]
fn rotate_half_turn_z() {
    let position = Position::new(SCALE, 0, 0, SCALE);
    let origin = Position::new(0, 0, 0, SCALE);
    let axis = Position::new(0, 0, SCALE, 0);

    let rotated = position.rotate(0, -SCALE, origin, axis).unwrap();

    assert_eq!(rotated.x, -SCALE);
    assert_eq!(rotated.y, 0);
    assert_eq!(rotated.z, 0);
    assert_eq!(rotated.w, SCALE);
}

/// Rotation about an anchored origin keeps the anchor fixed.
#[test]
fn rotate_about_shifted_origin() {
    let origin = Position::new(SCALE, SCALE, 0, SCALE);
    let axis = Position::new(0, 0, SCALE, 0);

    let rotated = origin.rotate(SCALE, 0, origin, axis).unwrap();

    assert_eq!(rotated.x, SCALE);
    assert_eq!(rotated.y, SCALE);
    assert_eq!(rotated.z, 0);
}

/// An axis whose length rounds to zero is reported as degenerate.
#[test]
fn rotate_zero_axis_is_degenerate() {
    let position = Position::new(SCALE, 0, 0, SCALE);
    let origin = Position::new(0, 0, 0, SCALE);
    let axis = Position::new(0, 0, 0, 0);

    let result = position.rotate(SCALE, 0, origin, axis);

    assert_eq!(result, Err(GeometryError::DegenerateGeometry));
}

/// The rotation agrees with a floating-point evaluation of the same
/// axis-angle formula within the fixed-point resolution.
#[test]
fn rotate_matches_float_reference() {
    let position = Position::new(3 * SCALE, -2 * SCALE, SCALE, SCALE);
    let origin = Position::new(0, 0, 0, SCALE);
    let axis = Position::new(0, SCALE, 0, 0);
    let angle = std::f64::consts::PI / 3.0;
    let sin_a = (angle.sin() * SCALE as f64).round() as i64;
    let cos_a = (angle.cos() * SCALE as f64).round() as i64;

    let rotated = position.rotate(sin_a, cos_a, origin, axis).unwrap();

    let (x, y, z) = (3.0f64, -2.0f64, 1.0f64);
    let (s, c) = (angle.sin(), angle.cos());
    // rotation about the y axis
    let ex = x * c + z * s;
    let ey = y;
    let ez = -x * s + z * c;
    let tol = 64i64;
    assert!((rotated.x - (ex * SCALE as f64) as i64).abs() <= tol);
    assert!((rotated.y - (ey * SCALE as f64) as i64).abs() <= tol);
    assert!((rotated.z - (ez * SCALE as f64) as i64).abs() <= tol);
}
