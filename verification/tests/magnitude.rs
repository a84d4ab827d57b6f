use diman::magnitude::{integer_decode_f64_bits, Magnitude, MAX_NUM_FACTORS};

/// The double that a magnitude's three fields describe, computed as `into_f64` does.
fn value(m: Magnitude) -> f64 {
    m.sign as f64 * m.mantissa as f64 * 2.0f64.powi(m.exponent as i32)
}

fn magnitude(mantissa: u64, exponent: i16, sign: i8) -> Magnitude {
    Magnitude { mantissa, exponent, sign }
}

#[test]
fn magnitude_as_f64_round_trip() {
    let check_equality = |x: f64| {
        assert_eq!(value(Magnitude::from_f64_bits(x.to_bits())), x);
    };
    for x in 0..10000 {
        let x = (x as f64) * 0.01;
        check_equality(x);
    }
    for exp in -50..50 {
        let x = 2.0f64.powi(exp);
        check_equality(x);
    }
}

#[test]
fn decode_one() {
    assert_eq!(Magnitude::from_f64_bits(1.0f64.to_bits()), magnitude(1 << 52, -52, 1));
    assert_eq!(integer_decode_f64_bits(0x3FF0_0000_0000_0000), (1 << 52, -52, 1));
}

#[test]
fn decode_kilometer_factor() {
    assert_eq!(
        Magnitude::from_f64_bits(1000.0f64.to_bits()),
        magnitude(8796093022208000, -43, 1)
    );
}

#[test]
fn decode_negative() {
    assert_eq!(Magnitude::from_f64_bits((-2.0f64).to_bits()), magnitude(1 << 52, -51, -1));
}

#[test]
fn decode_zeros() {
    assert_eq!(Magnitude::from_f64_bits(0.0f64.to_bits()), magnitude(0, -1075, 1));
    assert_eq!(Magnitude::from_f64_bits((-0.0f64).to_bits()), magnitude(0, -1075, -1));
}

#[test]
fn decode_subnormal_doubles_the_fraction() {
    assert_eq!(Magnitude::from_f64_bits(1), magnitude(2, -1075, 1));
    assert_eq!(value(magnitude(2, -1074, 1)), f64::from_bits(1) * 2.0);
}

#[test]
fn decode_infinity() {
    assert_eq!(Magnitude::from_f64_bits(f64::INFINITY.to_bits()), magnitude(1 << 52, 972, 1));
}

#[test]
fn decode_is_injective_on_neighbours() {
    let a = Magnitude::from_f64_bits(0x3FF0_0000_0000_0000);
    let b = Magnitude::from_f64_bits(0x3FF0_0000_0000_0001);
    let c = Magnitude::from_f64_bits(0xBFF0_0000_0000_0000);
    assert_ne!(a, b);
    assert_ne!(a, c);
    assert_ne!(b, c);
}

#[test]
fn decoded_value_is_the_double() {
    for x in [1.5f64, -3.25, 1e300, 1e-300, 123456.789] {
        assert_eq!(value(Magnitude::from_f64_bits(x.to_bits())), x);
    }
}

#[test]
fn is_one_of_decoded_doubles() {
    assert!(Magnitude::from_f64_bits(1.0f64.to_bits()).is_one());
    assert!(!Magnitude::from_f64_bits((-1.0f64).to_bits()).is_one());
    assert!(!Magnitude::from_f64_bits(2.0f64.to_bits()).is_one());
    assert!(!Magnitude::from_f64_bits(0.5f64.to_bits()).is_one());
    assert!(!Magnitude::from_f64_bits(0.0f64.to_bits()).is_one());
    assert!(!Magnitude::from_f64_bits(f64::NAN.to_bits()).is_one());
    assert!(!Magnitude::from_f64_bits(1.0000000000000002f64.to_bits()).is_one());
}

#[test]
fn is_one_of_other_representations() {
    assert!(magnitude(1, 0, 1).is_one());
    assert!(magnitude(1 << 10, -10, 1).is_one());
    assert!(magnitude(1, -1, 2).is_one());
    assert!(!magnitude(1, 0, -1).is_one());
    assert!(!magnitude(1, 0, 0).is_one());
    assert!(!magnitude(0, 0, 1).is_one());
    assert!(!magnitude(1, 1, 1).is_one());
    assert!(!magnitude(3, -1, 2).is_one());
}

#[test]
fn is_one_follows_double_rounding() {
    // 2^53 + 1 converts to the double 2^53
    assert!(magnitude((1 << 53) + 1, -53, 1).is_one());
    // 2^53 + 2 is a double, and (2^53 + 2) / 2^53 is not one
    assert!(!magnitude((1 << 53) + 2, -53, 1).is_one());
    // u64::MAX converts to the double 2^64
    assert!(magnitude(u64::MAX, -64, 1).is_one());
    // 3 * 0x15555555555555 = 2^54 - 1 rounds to 2^54
    assert!(magnitude(0x15555555555555, -54, 3).is_one());
    assert!(!magnitude(0x15555555555555, -53, 3).is_one());
}

#[test]
fn is_one_agrees_with_the_double_evaluation() {
    let cases = [
        magnitude((1 << 53) + 1, -53, 1),
        magnitude(u64::MAX, -64, 1),
        magnitude(0x15555555555555, -54, 3),
        magnitude(1, -1, 2),
        magnitude(3, -1, 2),
        magnitude(7, -3, 1),
        magnitude(1 << 52, -52, -1),
        magnitude(1, -200, 1),
        magnitude(1, 200, 1),
    ];
    for m in cases {
        assert_eq!(m.is_one(), value(m) == 1.0);
    }
}

#[test]
fn max_num_factors() {
    assert_eq!(MAX_NUM_FACTORS, 10);
}
