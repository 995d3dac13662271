use rlox::number::{equal, greater, greater_equal, less, less_equal, negate, not_a_number};

fn samples() -> Vec<f64> {
    vec![
        0.0,
        -0.0,
        1.0,
        -1.0,
        0.5,
        -0.5,
        2.0,
        1e-320,
        -1e-320,
        f64::MIN_POSITIVE,
        -f64::MIN_POSITIVE,
        f64::MAX,
        f64::MIN,
        f64::INFINITY,
        f64::NEG_INFINITY,
        f64::NAN,
        -f64::NAN,
        f64::EPSILON,
        1.0 + f64::EPSILON,
        123456789.125,
        -123456789.125,
        3.0e300,
        -3.0e300,
    ]
}

#[test]
fn comparisons_agree_with_the_machine() {
    for a in samples() {
        for b in samples() {
            let (x, y) = (a.to_bits(), b.to_bits());
            assert_eq!(equal(x, y), a == b, "{}", format!("{a} == {b}"));
            assert_eq!(less(x, y), a < b, "{}", format!("{a} < {b}"));
            assert_eq!(less_equal(x, y), a <= b, "{}", format!("{a} <= {b}"));
            assert_eq!(greater(x, y), a > b, "{}", format!("{a} > {b}"));
            assert_eq!(greater_equal(x, y), a >= b, "{}", format!("{a} >= {b}"));
        }
    }
}

#[test]
fn negation_agrees_with_the_machine() {
    for a in samples() {
        assert_eq!(negate(a.to_bits()), (-a).to_bits());
        assert_eq!(negate(negate(a.to_bits())), a.to_bits());
    }
}

#[test]
fn what_is_not_a_number() {
    for a in samples() {
        assert_eq!(not_a_number(a.to_bits()), a.is_nan());
    }
    assert!(not_a_number(0x7ff0_0000_0000_0001));
    assert!(not_a_number(0xffff_ffff_ffff_ffff));
    assert!(!not_a_number(0x7ff0_0000_0000_0000));
    assert!(!not_a_number(0xfff0_0000_0000_0000));
}

#[test]
fn the_two_zeros_are_equal_and_neither_is_less() {
    let (plus, minus) = (0.0f64.to_bits(), (-0.0f64).to_bits());
    assert_ne!(plus, minus);
    assert!(equal(plus, minus));
    assert!(!less(minus, plus));
    assert!(less_equal(minus, plus));
    assert!(less_equal(plus, minus));
}

#[test]
fn what_is_not_a_number_equals_nothing() {
    let nan = f64::NAN.to_bits();
    assert!(!equal(nan, nan));
    assert!(!less(nan, 1.0f64.to_bits()));
    assert!(!greater_equal(nan, nan));
}

#[test]
fn exact_values() {
    assert_eq!(negate(0x3ff0_0000_0000_0000), 0xbff0_0000_0000_0000);
    assert_eq!(negate(0), 0x8000_0000_0000_0000);
    assert!(less(0xbff0_0000_0000_0000, 0x3ff0_0000_0000_0000));
    assert!(less(0xc000_0000_0000_0000, 0xbff0_0000_0000_0000));
    assert!(greater(0x4000_0000_0000_0000, 0x3ff0_0000_0000_0000));
}
