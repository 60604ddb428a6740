use rknpu::error::DecodeError;
use rknpu::quant::{
    dequantize_value, quantize_data, quantize_value, QValue, QuantScale, RknnTensorQuantFormat,
};

/// Exact binary-rational form of a positive, normal `f32`, reduced into
/// the scale bounds of the crate.
fn scale_from_f32(s: f32) -> QuantScale {
    assert!(s > 0.0 && s.is_finite());
    let bits = s.to_bits();
    let exp = ((bits >> 23) & 0xFF) as i32;
    assert!(exp > 0, "subnormal scales are out of range");
    let mut mantissa: u32 = 0x80_0000 | (bits & 0x7F_FFFF);
    let mut shift: i32 = 150 - exp;
    while shift > 40 && mantissa % 2 == 0 {
        mantissa /= 2;
        shift -= 1;
    }
    assert!((16..=40).contains(&shift), "scale out of the supported range");
    QuantScale { mantissa, shift: shift as u8 }
}

fn scale_value(s: &QuantScale) -> f64 {
    s.mantissa as f64 / (1u64 << s.shift) as f64
}

#[test]
fn test_round_trip_all_bytes() {
    let scale = scale_from_f32(0.00392);
    for v in 0..=255u8 {
        let d = dequantize_value(v, -128, &scale);
        assert_eq!(quantize_value(&d, -128, &scale), v);
    }
}

#[test]
fn test_round_trip_boundaries() {
    // boundary bytes, several zero points and scales
    for &zp in &[-128, 0, 51, 255, -1000] {
        for &s in &[0.00392f32, 1.0, 0.17899919] {
            let scale = scale_from_f32(s);
            for &v in &[0u8, 255u8] {
                let d = dequantize_value(v, zp, &scale);
                assert_eq!(quantize_value(&d, zp, &scale), v);
            }
        }
    }
}

#[test]
fn test_quantize_clamp_high() {
    // 1e6 / 1.0 rounds far above 255 and must clamp to 255
    let scale = scale_from_f32(1.0);
    let x = QValue { num: 1_000_000i64 << 16, shift: 16 };
    assert_eq!(quantize_value(&x, 0, &scale), 255);
}

#[test]
fn test_quantize_clamp_low() {
    let scale = scale_from_f32(1.0);
    let x = QValue { num: -(1_000_000i64 << 16), shift: 16 };
    assert_eq!(quantize_value(&x, 0, &scale), 0);
}

#[test]
fn test_quantize_rounds_to_nearest() {
    let scale = scale_from_f32(1.0);
    // 2.25 -> 2, 2.5 -> 3 (ties away from zero toward +inf), 2.75 -> 3
    let q = |num: i64| quantize_value(&QValue { num, shift: 2 }, 0, &scale);
    assert_eq!(q(9), 2);
    assert_eq!(q(10), 3);
    assert_eq!(q(11), 3);
}

#[test]
fn test_dequantize_exact_value() {
    let scale = scale_from_f32(0.00392);
    let d = dequantize_value(200, -128, &scale);
    assert_eq!(d.num, (200i64 + 128) * scale.mantissa as i64);
    assert_eq!(d.shift, scale.shift);
    let got = d.num as f64 / (1u64 << d.shift) as f64;
    let want = 328.0 * 0.00392;
    assert!((got - want).abs() < 1e-4);
}

#[test]
fn test_quantize_data_affine() {
    let scale = scale_from_f32(0.5);
    let fmt = RknnTensorQuantFormat::AffineScale(10, scale);
    // values 1.0, 2.5, -0.25 with zero point 10 and scale 0.5
    let data = vec![
        QValue { num: 1 << 8, shift: 8 },
        QValue { num: 5 << 7, shift: 8 },
        QValue { num: -(1 << 6), shift: 8 },
    ];
    let out = quantize_data(&data, &fmt).unwrap();
    assert_eq!(out, vec![12, 15, 10]);
}

#[test]
fn test_quantize_data_none_refused() {
    let data = vec![QValue { num: 0, shift: 0 }];
    let r = quantize_data(&data, &RknnTensorQuantFormat::Unquantized);
    assert_eq!(r, Err(DecodeError::UnsupportedQuantization));
}

#[test]
fn test_quantize_data_dynamic_fixed_point_refused() {
    let data = vec![QValue { num: 0, shift: 0 }];
    let r = quantize_data(&data, &RknnTensorQuantFormat::DynamicFixedPoint(3));
    assert_eq!(r, Err(DecodeError::UnsupportedQuantization));
}

#[test]
fn test_from_spec_codes() {
    let scale = scale_from_f32(0.00392);
    assert_eq!(
        RknnTensorQuantFormat::from_spec(0, 0, 0, None),
        Ok(RknnTensorQuantFormat::Unquantized)
    );
    assert_eq!(
        RknnTensorQuantFormat::from_spec(1, 7, 0, None),
        Ok(RknnTensorQuantFormat::DynamicFixedPoint(7))
    );
    assert_eq!(
        RknnTensorQuantFormat::from_spec(2, 0, -128, Some(scale)),
        Ok(RknnTensorQuantFormat::AffineScale(-128, scale))
    );
    assert_eq!(
        RknnTensorQuantFormat::from_spec(2, 0, -128, None),
        Err(DecodeError::MalformedAttribute)
    );
    assert_eq!(
        RknnTensorQuantFormat::from_spec(3, 0, 0, None),
        Err(DecodeError::MalformedAttribute)
    );
}

#[test]
fn test_zp_scale() {
    let scale = scale_from_f32(0.17899919);
    assert!((scale_value(&scale) - 0.17899919).abs() < 1e-7);
    let fmt = RknnTensorQuantFormat::AffineScale(51, scale);
    assert_eq!(fmt.zp_scale(), Some((51, scale)));
    assert_eq!(RknnTensorQuantFormat::Unquantized.zp_scale(), None);
    assert_eq!(RknnTensorQuantFormat::DynamicFixedPoint(2).zp_scale(), None);
}
