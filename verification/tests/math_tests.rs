use terrain_editor::fixed::{clamp_i64, cos_fp, isqrt, sin_fp, tdiv, wrap_angle};
use terrain_editor::mat4::Mat4Fp;
use terrain_editor::vec3::Vec3Fp;

#[test]
fn clamp_pins_to_both_bounds() {
    assert_eq!(clamp_i64(5, 0, 10), 5);
    assert_eq!(clamp_i64(-5, 0, 10), 0);
    assert_eq!(clamp_i64(15, 0, 10), 10);
}

#[test]
fn division_truncates_toward_zero() {
    assert_eq!(tdiv(7, 2), 3);
    assert_eq!(tdiv(-7, 2), -3);
    assert_eq!(tdiv(0, 9), 0);
}

#[test]
fn angles_wrap_into_one_turn() {
    assert_eq!(wrap_angle(0), 0);
    assert_eq!(wrap_angle(4_000_000), 0);
    assert_eq!(wrap_angle(5_000_000), 1_000_000);
    assert_eq!(wrap_angle(-1_000_000), 3_000_000);
}

#[test]
fn sine_is_exact_at_quadrants_and_close_between() {
    assert_eq!(sin_fp(0), 0);
    assert_eq!(sin_fp(1_000_000), 1_000);
    assert_eq!(sin_fp(2_000_000), 0);
    assert_eq!(sin_fp(3_000_000), -1_000);
    assert_eq!(cos_fp(0), 1_000);
    assert_eq!(cos_fp(2_000_000), -1_000);
    // An eighth turn: sin(45 degrees) is about 0.707.
    let s = sin_fp(500_000);
    assert!((700..=710).contains(&s), "sin of an eighth turn was {s}");
    assert_eq!(cos_fp(500_000), s);
}

#[test]
fn integer_square_root_floors() {
    assert_eq!(isqrt(0), 0);
    assert_eq!(isqrt(15), 3);
    assert_eq!(isqrt(16), 4);
    assert_eq!(isqrt(1_000_000), 1_000);
    assert_eq!(isqrt(u64::MAX), 0xFFFF_FFFF);
}

#[test]
fn vector_operations_are_exact() {
    let a = Vec3Fp::new(1, 2, 3);
    let b = Vec3Fp::new(10, -20, 30);
    assert_eq!(a.add(b), Vec3Fp::new(11, -18, 33));
    assert_eq!(a.dot(b), 1 * 10 + 2 * -20 + 3 * 30);
    assert_eq!(a.cross(b), Vec3Fp::new(2 * 30 - 3 * -20, 3 * 10 - 1 * 30, 1 * -20 - 2 * 10));
    assert_eq!(Vec3Fp::new(6000, 0, 9000).scale_div(1, 3), Vec3Fp::new(2000, 0, 3000));
}

#[test]
fn normalization_rescales_to_unit_length() {
    assert_eq!(Vec3Fp::new(3_000, 0, 4_000).norm_or_zero(), Vec3Fp::new(600, 0, 800));
    assert_eq!(Vec3Fp::new(0, -5, 0).norm_or_zero(), Vec3Fp::new(0, -1_000, 0));
    assert_eq!(Vec3Fp::zero().norm_or_zero(), Vec3Fp::zero());
}

#[test]
fn identity_is_neutral_for_matrix_product() {
    let id = Mat4Fp::identity();
    assert_eq!(id.mul(&id), id);
    let m = Mat4Fp { m03: 123, m13: -456, m23: 789, ..id };
    assert_eq!(id.mul(&m), m);
    assert_eq!(m.mul(&id), m);
}
