use qcheat::floatbits::{
    f32_abs_ge, f32_abs_lt, f32_is_finite, f32_is_zero, f32_reasonable, f32_reasonable_coord,
    f32_vec3_is_zero, F32_MAP_LIMIT, F32_ONE,
};
use qcheat::layout::Vec3Bits;

fn samples() -> Vec<f32> {
    vec![
        0.0, -0.0, 1.0, -1.0, 0.5, -0.999, 32767.99, 32768.0, -32768.0, 32768.004, 1e-40,
        -1e-40, 1e30, -1e30, f32::MAX, f32::MIN, f32::MIN_POSITIVE, f32::INFINITY,
        f32::NEG_INFINITY, f32::NAN, -f32::NAN, 123.456, -4096.5,
    ]
}

#[test]
fn float_bits_match_ieee_comparisons() {
    assert_eq!(F32_MAP_LIMIT, 32768.0f32.to_bits());
    assert_eq!(F32_ONE, 1.0f32.to_bits());
    for x in samples() {
        let b = x.to_bits();
        assert_eq!(f32_is_finite(b), x.is_finite(), "{x}");
        assert_eq!(f32_abs_lt(b, F32_MAP_LIMIT), x.abs() < 32768.0, "{x}");
        assert_eq!(f32_abs_ge(b, F32_MAP_LIMIT), x.abs() >= 32768.0, "{x}");
        assert_eq!(f32_abs_lt(b, F32_ONE), x.abs() < 1.0, "{x}");
        assert_eq!(f32_is_zero(b), x == 0.0, "{x}");
        assert_eq!(
            f32_reasonable(b),
            x.is_finite() && x.abs() < 32_768.0,
            "{x}"
        );
    }
}

#[test]
fn float_vec3_predicates() {
    let z = Vec3Bits { x: 0.0f32.to_bits(), y: (-0.0f32).to_bits(), z: 0.0f32.to_bits() };
    assert!(f32_vec3_is_zero(&z));
    assert!(f32_reasonable_coord(&z));
    let far = Vec3Bits { x: 10.0f32.to_bits(), y: 40000.0f32.to_bits(), z: 0.0f32.to_bits() };
    assert!(!f32_vec3_is_zero(&far));
    assert!(!f32_reasonable_coord(&far));
    let nan = Vec3Bits { x: f32::NAN.to_bits(), y: 0, z: 0 };
    assert!(!f32_vec3_is_zero(&nan));
    assert!(!f32_reasonable_coord(&nan));
}
