use gamma::scalar::bool_to_f32;
use gamma::scalar::f32_to_bool;
use gamma::scalar::ge;
use gamma::scalar::gt;
use gamma::scalar::is_nan;
use gamma::scalar::le;
use gamma::scalar::lt;
use gamma::scalar::INFINITY;
use gamma::scalar::NAN;
use gamma::scalar::NEG_INFINITY;
use gamma::scalar::ONE;
use gamma::scalar::TWO;
use gamma::scalar::ZERO;

fn samples() -> Vec<f32> {
    vec![
        0.0,
        -0.0,
        1.0,
        -1.0,
        2.0,
        0.5,
        -0.5,
        1.0e-45,
        -1.0e-45,
        1.17549435e-38,
        3.4028235e38,
        -3.4028235e38,
        f32::INFINITY,
        f32::NEG_INFINITY,
        f32::NAN,
        -f32::NAN,
        100.0,
        150.0,
        149.99998,
        -7.25,
        f32::from_bits(0x7f80_0001),
        f32::from_bits(0xffff_ffff),
    ]
}

#[test]
fn constants_are_the_bits_of_their_numbers() {
    assert_eq!(ZERO, 0.0f32.to_bits());
    assert_eq!(ONE, 1.0f32.to_bits());
    assert_eq!(TWO, 2.0f32.to_bits());
    assert_eq!(INFINITY, f32::INFINITY.to_bits());
    assert_eq!(NEG_INFINITY, f32::NEG_INFINITY.to_bits());
    assert!(f32::from_bits(NAN).is_nan());
}

#[test]
fn is_nan_agrees_with_the_machine() {
    for x in samples() {
        assert_eq!(is_nan(x.to_bits()), x.is_nan(), "{:?}", x);
    }
}

#[test]
fn comparisons_agree_with_the_machine() {
    for x in samples() {
        for y in samples() {
            let (a, b) = (x.to_bits(), y.to_bits());
            assert_eq!(lt(a, b), x < y, "{:?} < {:?}", x, y);
            assert_eq!(le(a, b), x <= y, "{:?} <= {:?}", x, y);
            assert_eq!(gt(a, b), x > y, "{:?} > {:?}", x, y);
            assert_eq!(ge(a, b), x >= y, "{:?} >= {:?}", x, y);
        }
    }
}

#[test]
fn both_zeros_are_equal_in_order() {
    let (plus, minus) = (0.0f32.to_bits(), (-0.0f32).to_bits());
    assert_ne!(plus, minus);
    assert!(!lt(plus, minus));
    assert!(!lt(minus, plus));
    assert!(le(plus, minus));
    assert!(ge(plus, minus));
}

#[test]
fn nan_is_never_ordered() {
    assert!(!lt(NAN, ONE));
    assert!(!lt(ONE, NAN));
    assert!(!le(NAN, NAN));
    assert!(!ge(NAN, NEG_INFINITY));
    assert!(!gt(INFINITY, NAN));
}

#[test]
fn bool_to_f32_is_one_or_zero() {
    assert_eq!(f32::from_bits(bool_to_f32(true)), 1.0);
    assert_eq!(f32::from_bits(bool_to_f32(false)), 0.0);
}

#[test]
fn f32_to_bool_reads_sign_and_nan() {
    assert_eq!(f32_to_bool(f32::NAN.to_bits()), None);
    assert_eq!(f32_to_bool(1.0f32.to_bits()), Some(true));
    assert_eq!(f32_to_bool(0.25f32.to_bits()), Some(true));
    assert_eq!(f32_to_bool(0.0f32.to_bits()), Some(false));
    assert_eq!(f32_to_bool((-0.0f32).to_bits()), Some(false));
    assert_eq!(f32_to_bool((-3.0f32).to_bits()), Some(false));
    assert_eq!(f32_to_bool(f32::INFINITY.to_bits()), Some(true));
}
