use cgfs::color::{color, Color};
use cgfs::fixed::Fixed;

#[test]
fn color_math() {
    assert_eq!(color(255, 0, 0) + color(0, 255, 127), color(255, 255, 127));
    assert_eq!(color(255, 0, 0) + color(255, 255, 0), color(255, 255, 0));
    assert_eq!(color(255, 50, 10) * 3, color(255, 150, 30));
    assert_eq!(color(250, 50, 10) / 5, color(50, 10, 2));
    assert_eq!(color(100, 50, 10) * Fixed::from_ratio(3, 2), color(150, 75, 15));
    assert_eq!(color(100, 50, 10) / Fixed::from_ratio(3, 2), color(66, 33, 6));
}

#[test]
fn color_subtraction_saturates() {
    assert_eq!(color(10, 200, 0) - color(20, 100, 5), color(0, 100, 0));
}

#[test]
fn color_scalar_edge_cases() {
    // A negative whole-number scalar clamps every channel to zero.
    assert_eq!(color(10, 20, 30) * -2, color(0, 0, 0));
    // Huge scalars saturate at the channel maximum.
    assert_eq!(color(1, 2, 3) * 1_000_000_000_000i64, color(255, 255, 255));
    // The real-valued path truncates toward zero after clamping.
    assert_eq!(color(255, 255, 255) * Fixed::from_ratio(1, 3), color(84, 84, 84));
    assert_eq!(color(200, 100, 0) / Fixed::from_ratio(-3, 2), color(0, 0, 0));
}

#[test]
fn color_conversions() {
    assert_eq!(Color::from([1u8, 2, 3]), color(1, 2, 3));
    assert_eq!(Color::from((4u8, 5, 6)), color(4, 5, 6));
    assert_eq!(Color::new(7, 8, 9), color(7, 8, 9));
}
