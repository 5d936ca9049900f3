use cgfs::fixed::{Fixed, SCALE};
use cgfs::geometry::{cos_deg, sin_deg, Vec3};

#[test]
fn fixed_construction_and_arithmetic() {
    assert_eq!(Fixed::from_int(3).raw, 3 * SCALE);
    assert_eq!(Fixed::from_ratio(3, 2).raw, 3 * SCALE / 2);
    assert_eq!(Fixed::from_int(2).mul(Fixed::from_int(3)).raw, 6 * SCALE);
    assert_eq!(Fixed::from_int(7).div(Fixed::from_int(2)).raw, 7 * SCALE / 2);
    assert_eq!(Fixed::from_int(-7).div_int(2).raw, -7 * SCALE / 2);
    assert_eq!(Fixed::from_ratio(-5, 2).trunc(), -2);
    assert_eq!(Fixed::from_int(5).sub(Fixed::from_int(8)).raw, -3 * SCALE);
    assert_eq!(Fixed::from_int(5).neg().raw, -5 * SCALE);
}

#[test]
fn fixed_saturates_instead_of_overflowing() {
    let big = Fixed::from_raw(i64::MAX);
    assert_eq!(big.add(big).raw, i64::MAX);
    assert_eq!(big.mul(big).raw, i64::MAX);
    assert_eq!(big.neg().raw, -i64::MAX);
    assert_eq!(big.neg().sub(big).raw, -i64::MAX);
}

#[test]
fn fixed_sqrt_exact_on_squares() {
    assert_eq!(Fixed::from_int(4).sqrt().raw, 2 * SCALE);
    assert_eq!(Fixed::from_int(9).sqrt().raw, 3 * SCALE);
    assert_eq!(Fixed::from_int(0).sqrt().raw, 0);
    assert_eq!(Fixed::from_int(-4).sqrt().raw, 0);
    // An inexact root truncates: sqrt(2) in raw steps.
    let r = Fixed::from_int(2).sqrt().raw;
    assert!(r * r <= 2 * SCALE * SCALE && (r + 1) * (r + 1) > 2 * SCALE * SCALE);
}

#[test]
fn vector_operations() {
    let v = Vec3::new(Fixed::from_int(1), Fixed::from_int(2), Fixed::from_int(2));
    assert_eq!(v.dot(v).raw, 9 * SCALE);
    assert_eq!(v.magnitude().raw, 3 * SCALE);
    let n = v.normalize();
    // 1/3 and 2/3, truncated toward zero.
    assert_eq!(n.x.raw, SCALE / 3);
    assert_eq!(n.y.raw, 2 * SCALE / 3);
    assert_eq!(n.z.raw, 2 * SCALE / 3);
    assert_eq!(Vec3::zero().normalize().magnitude().raw, 0);
}

#[test]
fn trig_at_axes() {
    assert_eq!(sin_deg(Fixed::from_int(0)).raw, 0);
    assert_eq!(cos_deg(Fixed::from_int(0)).raw, SCALE);
    // Quarter-turn values are polynomial approximations: within a few
    // thousandths of the exact value.
    let tol: i64 = 300;
    assert!((sin_deg(Fixed::from_int(90)).raw - SCALE).abs() <= tol);
    assert!(cos_deg(Fixed::from_int(90)).raw.abs() <= tol);
    assert!((sin_deg(Fixed::from_int(30)).raw - SCALE / 2).abs() <= tol);
    assert!((cos_deg(Fixed::from_int(180)).raw + SCALE).abs() <= tol);
    assert!((sin_deg(Fixed::from_int(-90)).raw + SCALE).abs() <= tol);
    // Reduction far outside one turn.
    assert_eq!(sin_deg(Fixed::from_int(720)).raw, 0);
    assert_eq!(cos_deg(Fixed::from_int(-360)).raw, SCALE);
}
