use berrylite::errors::BLiteError;
use berrylite::quantization::{add_zero_point, normalize_quantized_multiplier};

fn quantize_multiplier(real_multiplier: f64) -> Result<(i32, i32), BLiteError> {
    let (q, shift) = libm::frexp(real_multiplier);
    let q_fixed = (q * (1u64 << 31) as f64).round() as i64;
    normalize_quantized_multiplier(q_fixed, shift)
}

#[test]
fn test_get_quantized_convolutional_multiplier() {
    assert_eq!(1, 1)
}

#[test]
fn test_quantize_multiplier() {
    let tt = [
        (0.0, (0, 0)),
        (0.1, (1717986918, -3)),
        (0.01, (1374389535, -6)),
        (0.03, (2061584302, -5)),
    ];
    for (real_multiplier, expected) in tt {
        assert_eq!(expected, quantize_multiplier(real_multiplier).unwrap());
    }
}

#[test]
fn multiply_by_quantized_multiplier() {
    let tt = [((1, 2, 30), 1), ((1, 1, 1), 0), ((1, 2, -30), 0)];
    for (real_multiplier, expected) in tt {
        let (x, quantized_multiplier, shift) = real_multiplier;
        assert_eq!(
            expected,
            berrylite::quantization::multiply_by_quantized_multiplier(x, quantized_multiplier, shift).unwrap()
        );
    }
}

#[test]
fn rescale_rounds_half_up() {
    // 0.5 as a fixed-point multiplier: 2^30 with shift 0.
    let m = 1 << 30;
    assert_eq!(berrylite::quantization::multiply_by_quantized_multiplier(3, m, 0), Ok(2));
    assert_eq!(berrylite::quantization::multiply_by_quantized_multiplier(-3, m, 0), Ok(-1));
    assert_eq!(berrylite::quantization::multiply_by_quantized_multiplier(100, m, 0), Ok(50));
    assert_eq!(berrylite::quantization::multiply_by_quantized_multiplier(7, m, 1), Ok(7));
}

#[test]
fn rescale_rejects_bad_parameters() {
    assert_eq!(
        berrylite::quantization::multiply_by_quantized_multiplier(1, -1, 0),
        Err(BLiteError::InCompatibleCasting)
    );
    assert_eq!(
        berrylite::quantization::multiply_by_quantized_multiplier(1, 1, 31),
        Err(BLiteError::InCompatibleCasting)
    );
    assert_eq!(
        berrylite::quantization::multiply_by_quantized_multiplier(1, 1, -32),
        Err(BLiteError::InCompatibleCasting)
    );
    // i32::MAX * (2^31 - 1) / 2^1 does not fit in an i32.
    assert_eq!(
        berrylite::quantization::multiply_by_quantized_multiplier(i32::MAX, i32::MAX, 30),
        Err(BLiteError::InCompatibleCasting)
    );
}

#[test]
fn normalize_edge_cases() {
    // A mantissa of exactly 2^31 is halved and the exponent raised.
    assert_eq!(normalize_quantized_multiplier(1 << 31, 3), Ok((1 << 30, 4)));
    // Exponents below -31 mean zero.
    assert_eq!(normalize_quantized_multiplier(1 << 30, -32), Ok((0, 0)));
    // Exponents above 30 saturate.
    assert_eq!(normalize_quantized_multiplier(1 << 30, 31), Ok((i32::MAX, 30)));
    assert_eq!(normalize_quantized_multiplier(1 << 30, 30), Ok((1 << 30, 30)));
    // Mantissas beyond 2^31 cannot be represented.
    assert_eq!(
        normalize_quantized_multiplier((1 << 31) + 1, 0),
        Err(BLiteError::InCompatibleCasting)
    );
}

#[test]
fn quantize_multiplier_of_one_half_and_large_values() {
    assert_eq!(quantize_multiplier(0.5).unwrap(), (1 << 30, 0));
    assert_eq!(quantize_multiplier(1.0e12).unwrap(), (i32::MAX, 30));
    assert_eq!(quantize_multiplier(1.0e-12).unwrap(), (0, 0));
}

#[test]
fn add_zero_point_checks_overflow() {
    assert_eq!(add_zero_point(-3, 10), Ok(7));
    assert_eq!(add_zero_point(i32::MAX, 1), Err(BLiteError::FatalError));
    assert_eq!(add_zero_point(i32::MIN, -1), Err(BLiteError::FatalError));
}

#[test]
fn quantize_dequantize_round_trip_within_one_step() {
    let scale = 0.05f32;
    let zero_point = -4;
    for k in -40..40 {
        let f = k as f32 * 0.0173;
        let steps = (f / scale).round() as i32;
        let q = add_zero_point(zero_point, steps).unwrap();
        let back = scale * (q - zero_point) as f32;
        assert!((back - f).abs() <= scale);
    }
}
