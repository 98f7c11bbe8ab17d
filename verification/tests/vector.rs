use physics_sim::math::scalar::ONE;
use physics_sim::math::vector::{Vec2f, Vec2i, Vec2u};

#[test]
fn new_and_zero_build_vectors() {
    let v = Vec2f::new(3, -4);
    assert_eq!(v.x, 3);
    assert_eq!(v.y, -4);
    assert_eq!(Vec2f::zero(), Vec2f::new(0, 0));
}

#[test]
fn integer_vectors_hold_their_fields() {
    let u = Vec2u { x: 1920, y: 1080 };
    let i = Vec2i { x: -1, y: 1 };
    assert_eq!((u.x, u.y), (1920, 1080));
    assert_eq!((i.x, i.y), (-1, 1));
}

#[test]
fn from_a_tuple() {
    assert_eq!(Vec2f::from((5, 6)), Vec2f::new(5, 6));
}

#[test]
fn addition_is_componentwise() {
    assert_eq!(Vec2f::new(ONE, 2 * ONE) + Vec2f::new(3 * ONE, -5 * ONE), Vec2f::new(4 * ONE, -3 * ONE));
    assert_eq!(Vec2f::new(i64::MAX, 0) + Vec2f::new(1, 0), Vec2f::new(i64::MAX, 0));
}

#[test]
fn subtraction_takes_the_right_hand_side_away() {
    assert_eq!(Vec2f::new(5 * ONE, ONE) - Vec2f::new(2 * ONE, 3 * ONE), Vec2f::new(3 * ONE, -2 * ONE));
}

#[test]
fn negation_is_componentwise() {
    assert_eq!(-Vec2f::new(ONE, -2 * ONE), Vec2f::new(-ONE, 2 * ONE));
    assert_eq!(-Vec2f::new(i64::MIN, 0), Vec2f::new(i64::MAX, 0));
}

#[test]
fn scaling_from_either_side() {
    let v = Vec2f::new(1_500_000, -2 * ONE);
    assert_eq!(v * (2 * ONE), Vec2f::new(3 * ONE, -4 * ONE));
    assert_eq!((2 * ONE) * v, Vec2f::new(3 * ONE, -4 * ONE));
}

#[test]
fn division_by_a_scalar() {
    assert_eq!(Vec2f::new(3 * ONE, -ONE) / (2 * ONE), Vec2f::new(1_500_000, -500_000));
}

#[test]
fn assigning_operations() {
    let mut v = Vec2f::new(ONE, ONE);
    v.add_assign(Vec2f::new(2 * ONE, 3 * ONE));
    assert_eq!(v, Vec2f::new(3 * ONE, 4 * ONE));
    v.sub_assign(Vec2f::new(ONE, ONE));
    assert_eq!(v, Vec2f::new(2 * ONE, 3 * ONE));
    v.mul_assign(500_000);
    assert_eq!(v, Vec2f::new(ONE, 1_500_000));
}

#[test]
fn dot_product() {
    let a = Vec2f::new(ONE, 2 * ONE);
    let b = Vec2f::new(3 * ONE, 4 * ONE);
    assert_eq!(a.dot(&b), 11 * ONE);
    assert_eq!(Vec2f::new(ONE, 0).dot(&Vec2f::new(0, ONE)), 0);
}

#[test]
fn norm_of_three_four() {
    let n = Vec2f::new(3 * ONE, 4 * ONE).norm();
    assert_eq!(n, Vec2f::new(600_000, 800_000));
}

#[test]
fn norm_along_an_axis_is_exact() {
    assert_eq!(Vec2f::new(-5 * ONE, 0).norm(), Vec2f::new(-ONE, 0));
    assert_eq!(Vec2f::new(0, 7).norm(), Vec2f::new(0, ONE));
    assert_eq!(Vec2f::new(1, 0).norm(), Vec2f::new(ONE, 0));
}

#[test]
fn norm_of_the_diagonal_divides_by_the_rounded_down_length() {
    // The length of (1, 1) is 1.414213 rounded down, and 1 / 1.414213 = 0.70710706...
    assert_eq!(Vec2f::new(ONE, ONE).norm(), Vec2f::new(707_107, 707_107));
    assert_eq!(Vec2f::new(-ONE, ONE).norm(), Vec2f::new(-707_107, 707_107));
}

#[test]
fn norm_of_the_largest_vector_does_not_overflow() {
    let n = Vec2f::new(i64::MIN, i64::MIN).norm();
    assert!(-ONE <= n.x && n.x <= -707_106);
    assert_eq!(n.x, -707_106);
    assert_eq!(n.x, n.y);
}

#[test]
fn clamp_limits_both_components() {
    assert_eq!(Vec2f::new(-5, 15).clamp(0, 10), Vec2f::new(0, 10));
    assert_eq!(Vec2f::new(3, 4).clamp(0, 10), Vec2f::new(3, 4));
}
