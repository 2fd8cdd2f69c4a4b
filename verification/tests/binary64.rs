use bloch::binary64::{equals_zero, exceeds_one, INFINITY, ONE, SIGN};

#[test]
fn constants_are_the_patterns_of_the_numbers() {
    assert_eq!(ONE, 1.0f64.to_bits());
    assert_eq!(INFINITY, f64::INFINITY.to_bits());
    assert_eq!(SIGN, (-0.0f64).to_bits());
}

#[test]
fn one_does_not_exceed_one() {
    assert!(!exceeds_one(1.0f64.to_bits()));
}

#[test]
fn the_next_number_after_one_exceeds_one() {
    assert!(exceeds_one(1.0f64.to_bits() + 1));
    assert!(exceeds_one((1.0f64 + f64::EPSILON).to_bits()));
}

#[test]
fn numbers_up_to_one_do_not_exceed_one() {
    for x in [0.0f64, 0.25, 0.5, 0.999_999_999_999_999_9, f64::MIN_POSITIVE, 5e-324] {
        assert!(!exceeds_one(x.to_bits()), "{x}");
    }
}

#[test]
fn larger_numbers_exceed_one() {
    for x in [1.5f64, 2.0, 1e10, f64::MAX, f64::INFINITY] {
        assert!(exceeds_one(x.to_bits()), "{x}");
    }
}

#[test]
fn negative_numbers_do_not_exceed_one() {
    for x in [-0.0f64, -0.5, -1.0, -2.0, f64::MIN, f64::NEG_INFINITY] {
        assert!(!exceeds_one(x.to_bits()), "{x}");
    }
}

#[test]
fn not_a_number_does_not_exceed_one() {
    assert!(!exceeds_one(f64::NAN.to_bits()));
    assert!(!exceeds_one(0x7FF0_0000_0000_0001));
    assert!(!exceeds_one(0xFFF8_0000_0000_0000));
}

#[test]
fn exceeds_one_agrees_with_the_comparison_of_floats() {
    let mut bits: u64 = 0x0123_4567_89AB_CDEF;
    for _ in 0..10_000 {
        bits = bits.wrapping_mul(6364136223846793005).wrapping_add(1442695040888963407);
        assert_eq!(exceeds_one(bits), f64::from_bits(bits) > 1.0, "{bits:#x}");
    }
}

#[test]
fn both_zeros_equal_zero() {
    assert!(equals_zero(0.0f64.to_bits()));
    assert!(equals_zero((-0.0f64).to_bits()));
}

#[test]
fn other_patterns_differ_from_zero() {
    for x in [5e-324f64, -5e-324, 1.0, -1.0, f64::INFINITY, f64::NEG_INFINITY, f64::NAN] {
        assert!(!equals_zero(x.to_bits()), "{x}");
    }
}

#[test]
fn equals_zero_agrees_with_the_comparison_of_floats() {
    let mut bits: u64 = 0xFEDC_BA98_7654_3210;
    for _ in 0..10_000 {
        bits = bits.wrapping_mul(6364136223846793005).wrapping_add(1442695040888963407);
        assert_eq!(equals_zero(bits), f64::from_bits(bits) == 0.0, "{bits:#x}");
    }
}
