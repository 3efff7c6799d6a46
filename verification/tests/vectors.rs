use particles::vec2::{SimError, Vec2};
use particles::fixmath::SAT;
use particles::body::throw_force;

#[test]
fn add_sub_exact() {
    let a = Vec2 { x: 3_000, y: -4_000 };
    let b = Vec2 { x: 1_500, y: 2_500 };
    assert_eq!(a.add(&b), Vec2 { x: 4_500, y: -1_500 });
    assert_eq!(a.sub(&b), Vec2 { x: 1_500, y: -6_500 });
}

#[test]
fn scale_and_mul_components() {
    let a = Vec2 { x: 3_000, y: -4_000 };
    assert_eq!(a.scale(3), Vec2 { x: 9_000, y: -12_000 });
    assert_eq!(a.mul_components(&Vec2 { x: 2, y: -2 }), Vec2 { x: 6_000, y: 8_000 });
}

#[test]
fn division_truncates_toward_zero() {
    let a = Vec2 { x: 7, y: -7 };
    assert_eq!(a.div_scalar(2).unwrap(), Vec2 { x: 3, y: -3 });
    assert_eq!(a.div_components(&Vec2 { x: -2, y: 2 }).unwrap(), Vec2 { x: -3, y: -3 });
}

#[test]
fn division_by_zero_is_an_error() {
    let a = Vec2 { x: 7, y: -7 };
    assert_eq!(a.div_scalar(0), Err(SimError::DivideByZero));
    assert_eq!(a.div_components(&Vec2 { x: 0, y: 5 }), Err(SimError::DivideByZero));
    assert_eq!(a.div_components(&Vec2 { x: 5, y: 0 }), Err(SimError::DivideByZero));
}

#[test]
fn dot_product_exact() {
    let a = Vec2 { x: 3, y: 4 };
    let b = Vec2 { x: -2, y: 5 };
    assert_eq!(a.dot(&b), 14);
}

#[test]
fn distance_three_four_five() {
    let a = Vec2 { x: 0, y: 0 };
    let b = Vec2 { x: 3_000, y: 4_000 };
    assert_eq!(a.dist(&b), 5_000);
    assert_eq!(b.magnitude(), 5_000);
}

#[test]
fn distance_rounds_down() {
    let a = Vec2 { x: 0, y: 0 };
    let b = Vec2 { x: 1_000, y: 1_000 };
    // sqrt(2) * 1000 = 1414.2..., rounded down.
    assert_eq!(a.dist(&b), 1_414);
}

#[test]
fn addition_saturates_at_the_range_limit() {
    let a = Vec2 { x: SAT, y: -SAT };
    let r = a.add(&Vec2 { x: SAT, y: -SAT });
    assert_eq!(r, Vec2 { x: SAT, y: -SAT });
}

#[test]
fn throw_force_reverses_and_amplifies_the_drag() {
    let first = Vec2 { x: 1_000, y: 2_000 };
    let last = Vec2 { x: 4_000, y: 6_000 };
    assert_eq!(throw_force(first, last), Vec2 { x: 6_000_000, y: 8_000_000 });
}
