use idp_tool::floatbits::{
    f32_abs_bits, f32_add_bits, f32_div_bits, f32_lt_bits, f32_mul_bits, f32_sub_bits,
    f32_total_le_bits, u16_to_f32_bits, DEAD_BAND_VALUE_BITS, F32_TWO_BITS,
};
use idp_tool::sorting::sort_f32_bits;

const SAMPLES: [f32; 12] = [
    0.0,
    -0.0,
    1.0,
    -1.0,
    0.3,
    999.0,
    -273.25,
    1.0e-40, // subnormal
    3.4e38,
    f32::INFINITY,
    f32::NEG_INFINITY,
    f32::NAN,
];

#[test]
fn sentinel_constants_encode_the_right_values() {
    assert_eq!(DEAD_BAND_VALUE_BITS, 999.0f32.to_bits());
    assert_eq!(F32_TWO_BITS, 2.0f32.to_bits());
}

#[test]
fn u16_conversion_matches_hardware() {
    for v in [0u16, 1, 2, 3, 255, 256, 1023, 4660, 12345, 32768, 65535] {
        assert_eq!(u16_to_f32_bits(v), (v as f32).to_bits(), "value {}", v);
    }
}

#[test]
fn less_than_matches_hardware() {
    for &a in SAMPLES.iter() {
        for &b in SAMPLES.iter() {
            assert_eq!(
                f32_lt_bits(a.to_bits(), b.to_bits()),
                a < b,
                "comparing {} and {}",
                a,
                b
            );
        }
    }
}

#[test]
fn total_order_agrees_with_value_order() {
    for &a in SAMPLES.iter() {
        for &b in SAMPLES.iter() {
            if !a.is_nan() && !b.is_nan() && a != b {
                assert_eq!(f32_total_le_bits(a.to_bits(), b.to_bits()), a <= b);
            }
        }
    }
}

#[test]
fn abs_matches_hardware() {
    for &a in SAMPLES.iter() {
        assert_eq!(f32_abs_bits(a.to_bits()), a.abs().to_bits());
    }
}

/// NaN results are compared as NaN (the sign and payload of a NaN are
/// unspecified); everything else must match bit for bit.
fn check(got_bits: u32, want: f32, op: &str, a: f32, b: f32) {
    if want.is_nan() {
        assert!(f32::from_bits(got_bits).is_nan(), "{} {} {}", a, op, b);
    } else {
        assert_eq!(got_bits, want.to_bits(), "{} {} {}", a, op, b);
    }
}

#[test]
fn arithmetic_wrappers_match_hardware() {
    for &a in SAMPLES.iter() {
        for &b in SAMPLES.iter() {
            if a.is_nan() || b.is_nan() {
                continue; // NaN payloads may differ; values are unordered anyway
            }
            check(f32_add_bits(a.to_bits(), b.to_bits()), a + b, "+", a, b);
            check(f32_sub_bits(a.to_bits(), b.to_bits()), a - b, "-", a, b);
            check(f32_mul_bits(a.to_bits(), b.to_bits()), a * b, "*", a, b);
            check(f32_div_bits(a.to_bits(), b.to_bits()), a / b, "/", a, b);
        }
    }
}

#[test]
fn nan_results_are_nan_too() {
    let nan = f32::NAN.to_bits();
    assert!(f32::from_bits(f32_add_bits(nan, 1.0f32.to_bits())).is_nan());
    assert!(f32::from_bits(f32_sub_bits(nan, nan)).is_nan());
    let inf = f32::INFINITY.to_bits();
    assert!(f32::from_bits(f32_sub_bits(inf, inf)).is_nan());
}

#[test]
fn subtracting_a_finite_value_from_itself_gives_positive_zero() {
    for &a in SAMPLES.iter() {
        if a.is_finite() {
            assert_eq!(f32_sub_bits(a.to_bits(), a.to_bits()), 0u32);
        }
    }
}

#[test]
fn sorting_orders_by_value() {
    let values: Vec<f32> = vec![3.5, -1.0, 0.0, 999.0, -0.0, 0.25, -273.25];
    let bits: Vec<u32> = values.iter().map(|v| v.to_bits()).collect();
    let sorted = sort_f32_bits(&bits);
    let sorted_values: Vec<f32> = sorted.iter().map(|b| f32::from_bits(*b)).collect();
    for pair in sorted_values.windows(2) {
        assert!(pair[0] <= pair[1]);
    }
    assert_eq!(sorted_values[0], -273.25);
    assert_eq!(sorted_values[6], 999.0);
}
