use treewalk::number::{calculate, write_number, EPSILON_BITS, INFINITY_BITS, SIGN_BIT};
use treewalk::text::decimal_text;
use treewalk::{Arithmetic, Number};

fn num(x: f64) -> Number {
    Number::from_bits(x.to_bits())
}

fn samples() -> Vec<f64> {
    vec![
        0.0,
        -0.0,
        1.0,
        -1.0,
        0.5,
        -0.5,
        2.0,
        3.0,
        6.0,
        1e-300,
        -1e-300,
        5e-324,
        -5e-324,
        f64::EPSILON,
        -f64::EPSILON,
        f64::EPSILON / 2.0,
        f64::EPSILON * 1.5,
        f64::MIN_POSITIVE,
        f64::MAX,
        f64::MIN,
        1e17,
        -123456.789,
        f64::INFINITY,
        f64::NEG_INFINITY,
        f64::NAN,
        -f64::NAN,
        f64::from_bits(0x7ff0_0000_0000_0001),
        f64::from_bits(0xffff_ffff_ffff_ffff),
    ]
}

#[test]
fn bits_go_in_and_out_unchanged() {
    for x in samples() {
        assert_eq!(num(x).to_bits(), x.to_bits());
        assert_eq!(num(x).bits, x.to_bits());
    }
    assert_eq!(Number::from_bits(0x4000_0000_0000_0000), num(2.0));
}

#[test]
fn constants_are_the_patterns_they_name() {
    assert_eq!(SIGN_BIT, (-0.0f64).to_bits());
    assert_eq!(INFINITY_BITS, f64::INFINITY.to_bits());
    assert_eq!(EPSILON_BITS, f64::EPSILON.to_bits());
}

#[test]
fn is_nan_agrees_with_the_hardware() {
    for x in samples() {
        assert_eq!(num(x).is_nan(), x.is_nan(), "{x}");
    }
}

#[test]
fn negate_flips_the_sign_only() {
    for x in samples() {
        assert_eq!(num(x).negate().to_bits(), (-x).to_bits(), "{x}");
    }
    assert_eq!(num(0.0).negate().to_bits(), SIGN_BIT);
    assert_eq!(num(2.5).negate(), num(-2.5));
}

#[test]
fn less_than_agrees_with_the_hardware() {
    for x in samples() {
        for y in samples() {
            assert_eq!(num(x).less_than(num(y)), x < y, "{x} < {y}");
        }
    }
}

#[test]
fn at_most_agrees_with_the_hardware() {
    for x in samples() {
        for y in samples() {
            assert_eq!(num(x).at_most(num(y)), x <= y, "{x} <= {y}");
        }
    }
}

#[test]
fn zeros_of_both_signs_are_ordered_as_equal() {
    assert!(!num(-0.0).less_than(num(0.0)));
    assert!(!num(0.0).less_than(num(-0.0)));
    assert!(num(-0.0).at_most(num(0.0)));
    assert!(num(0.0).at_most(num(-0.0)));
}

#[test]
fn a_nan_is_ordered_with_nothing() {
    let nan = num(f64::NAN);
    assert!(!nan.less_than(nan));
    assert!(!nan.at_most(nan));
    assert!(!nan.less_than(num(1.0)));
    assert!(!num(1.0).at_most(nan));
}

#[test]
fn is_negligible_means_below_epsilon() {
    for x in samples() {
        assert_eq!(num(x).is_negligible(), x.abs() < f64::EPSILON, "{x}");
    }
    assert!(num(0.0).is_negligible());
    assert!(!num(f64::EPSILON).is_negligible());
    assert!(!num(f64::NAN).is_negligible());
}

#[test]
fn calculate_hands_back_what_the_calculator_gives() {
    let calc = |op: Arithmetic, a: Number, b: Number| match op {
        Arithmetic::Add => Number::from_bits(a.bits + b.bits),
        Arithmetic::Subtract => Number::from_bits(a.bits - b.bits),
        Arithmetic::Multiply => Number::from_bits(a.bits * b.bits),
        Arithmetic::Divide => Number::from_bits(a.bits / b.bits),
    };
    let (a, b) = (Number::from_bits(12), Number::from_bits(4));
    assert_eq!(calculate(&calc, Arithmetic::Add, a, b).bits, 16);
    assert_eq!(calculate(&calc, Arithmetic::Subtract, a, b).bits, 8);
    assert_eq!(calculate(&calc, Arithmetic::Multiply, a, b).bits, 48);
    assert_eq!(calculate(&calc, Arithmetic::Divide, a, b).bits, 3);
}

#[test]
fn write_number_hands_back_what_the_notation_gives() {
    let show = |n: Number| format!("{}", f64::from_bits(n.bits));
    assert_eq!(write_number(&show, num(2.0)), "2");
    assert_eq!(write_number(&show, num(-0.5)), "-0.5");
}

#[test]
fn decimal_text_writes_numerals() {
    assert_eq!(decimal_text(0), "0");
    assert_eq!(decimal_text(7), "7");
    assert_eq!(decimal_text(10), "10");
    assert_eq!(decimal_text(109), "109");
    assert_eq!(decimal_text(1234567890), "1234567890");
    assert_eq!(decimal_text(usize::MAX), usize::MAX.to_string());
}
