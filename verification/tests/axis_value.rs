use ezinput::value::{AxisValue, Vec2, INFINITY_BITS, ONE_BITS, SIGN_BIT, TENTH_BITS};

fn value(x: f32) -> AxisValue {
    AxisValue::from_bits(x.to_bits())
}

fn samples() -> Vec<f32> {
    vec![
        0.0,
        -0.0,
        f32::MIN_POSITIVE,
        -f32::MIN_POSITIVE,
        1.0e-40,
        -1.0e-40,
        0.05,
        -0.05,
        0.099999994,
        0.1,
        -0.1,
        0.10000001,
        -0.10000001,
        0.25,
        -0.25,
        0.5,
        1.0,
        -1.0,
        2.5,
        -1234.5,
        f32::MAX,
        f32::MIN,
        f32::INFINITY,
        f32::NEG_INFINITY,
        f32::NAN,
        -f32::NAN,
        f32::from_bits(0x7f80_0001),
        f32::from_bits(0xffff_ffff),
    ]
}

#[test]
fn constants_are_the_patterns_of_the_numbers() {
    assert_eq!(AxisValue::zero().to_bits(), 0.0f32.to_bits());
    assert_eq!(AxisValue::one().to_bits(), 1.0f32.to_bits());
    assert_eq!(ONE_BITS, 1.0f32.to_bits());
    assert_eq!(TENTH_BITS, 0.1f32.to_bits());
    assert_eq!(INFINITY_BITS, f32::INFINITY.to_bits());
    assert_eq!(SIGN_BIT, (-0.0f32).to_bits());
}

#[test]
fn bits_round_trip() {
    for x in samples() {
        assert_eq!(value(x).to_bits(), x.to_bits());
        assert_eq!(value(x).bits, x.to_bits());
    }
}

#[test]
fn abs_clears_the_sign() {
    for x in samples() {
        assert_eq!(value(x).abs().to_bits(), x.abs().to_bits());
    }
    assert_eq!(f32::from_bits(value(-1.0).abs().to_bits()), 1.0);
}

#[test]
fn is_zero_is_comparison_with_zero() {
    for x in samples() {
        assert_eq!(value(x).is_zero(), x == 0.0, "{x}");
    }
    assert!(value(-0.0).is_zero());
    assert!(!value(f32::NAN).is_zero());
}

#[test]
fn abs_le_is_the_comparison_of_numbers() {
    for x in samples() {
        for bound in samples() {
            assert_eq!(value(x).abs_le(value(bound)), x.abs() <= bound, "{x} {bound}");
        }
    }
}

#[test]
fn abs_lt_is_the_comparison_of_numbers() {
    for x in samples() {
        for bound in samples() {
            assert_eq!(value(x).abs_lt(value(bound)), x.abs() < bound, "{x} {bound}");
        }
    }
}

#[test]
fn abs_le_exact_cases() {
    assert!(value(0.1).abs_le(value(0.1)));
    assert!(value(-0.1).abs_le(value(0.1)));
    assert!(!value(0.10000001).abs_le(value(0.1)));
    assert!(value(0.0).abs_le(value(-0.0)));
    assert!(!value(0.5).abs_le(value(-1.0)));
    assert!(!value(f32::NAN).abs_le(value(1.0)));
    assert!(!value(1.0).abs_le(value(f32::NAN)));
    assert!(value(f32::INFINITY).abs_le(value(f32::INFINITY)));
}

#[test]
fn abs_lt_exact_cases() {
    assert!(value(0.05).abs_lt(value(0.1)));
    assert!(!value(0.1).abs_lt(value(0.1)));
    assert!(!value(0.0).abs_lt(value(0.0)));
    assert!(!value(0.0).abs_lt(value(-0.0)));
    assert!(!value(0.0).abs_lt(value(-5.0)));
    assert!(!value(f32::NAN).abs_lt(value(1.0)));
    assert!(!value(1.0).abs_lt(value(f32::NAN)));
    assert!(value(f32::MAX).abs_lt(value(f32::INFINITY)));
    assert!(!value(f32::INFINITY).abs_lt(value(f32::INFINITY)));
}

#[test]
fn pairs_hold_their_components() {
    let pair = Vec2::new(value(3.0), value(-4.0));
    assert_eq!(f32::from_bits(pair.x.to_bits()), 3.0);
    assert_eq!(f32::from_bits(pair.y.to_bits()), -4.0);
    let zero = Vec2::zero();
    assert_eq!(zero.x, AxisValue::zero());
    assert_eq!(zero.y, AxisValue::zero());
}
