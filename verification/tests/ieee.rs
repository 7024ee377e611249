use gm8emulator::ieee::{depth_before, equal_single, is_nan_double, is_nan_single, less_single};

fn doubles() -> Vec<f64> {
    vec![
        f64::NAN,
        -f64::NAN,
        f64::INFINITY,
        f64::NEG_INFINITY,
        0.0,
        -0.0,
        1.0,
        -1.0,
        1.5,
        -2.0,
        1e300,
        -1e300,
        f64::MIN_POSITIVE,
        5e-324,
        -5e-324,
        16000.0,
    ]
}

fn singles() -> Vec<f32> {
    vec![
        f32::NAN,
        -f32::NAN,
        f32::INFINITY,
        f32::NEG_INFINITY,
        0.0,
        -0.0,
        1.0,
        -1.0,
        0.5,
        -16000.0,
        16000.0,
        1e-45,
        3.4e38,
    ]
}

#[test]
fn nan_patterns_are_recognised() {
    for d in doubles() {
        assert_eq!(is_nan_double(d.to_bits()), d.is_nan());
    }
    for s in singles() {
        assert_eq!(is_nan_single(s.to_bits()), s.is_nan());
    }
    assert!(is_nan_double(0x7ff0_0000_0000_0001));
    assert!(!is_nan_double(0x7ff0_0000_0000_0000));
    assert!(is_nan_single(0xffc0_0000));
    assert!(!is_nan_single(0xff80_0000));
}

#[test]
fn depth_order_puts_nan_first_then_greater_depths() {
    for a in doubles() {
        for b in doubles() {
            let expected = if a.is_nan() { !b.is_nan() } else { !b.is_nan() && a > b };
            assert_eq!(depth_before(a.to_bits(), b.to_bits()), expected);
        }
    }
}

#[test]
fn depth_order_examples() {
    assert!(depth_before(f64::NAN.to_bits(), 1.0f64.to_bits()));
    assert!(!depth_before(1.0f64.to_bits(), f64::NAN.to_bits()));
    assert!(depth_before(1.0f64.to_bits(), (-2.0f64).to_bits()));
    assert!(!depth_before((-2.0f64).to_bits(), 1.0f64.to_bits()));
    assert!(!depth_before(1.0f64.to_bits(), 1.0f64.to_bits()));
    assert!(!depth_before(0.0f64.to_bits(), (-0.0f64).to_bits()));
    assert!(!depth_before((-0.0f64).to_bits(), 0.0f64.to_bits()));
    assert!(depth_before(f64::INFINITY.to_bits(), 1e300f64.to_bits()));
}

#[test]
fn single_comparisons_agree_with_the_numbers() {
    for a in singles() {
        for b in singles() {
            assert_eq!(equal_single(a.to_bits(), b.to_bits()), a == b);
            assert_eq!(less_single(a.to_bits(), b.to_bits()), a < b);
        }
    }
}
