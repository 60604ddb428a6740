use rknpu::error::DecodeError;
use rknpu::fixed::{FP_HALF, FP_ONE};
use rknpu::quant::QuantScale;
use rknpu::yolo::{column_at, process_result, Anchor, YoloDetection};

/// Exact binary-rational form of a positive, normal `f32`, reduced into
/// the scale bounds of the crate.
fn scale_from_f32(s: f32) -> QuantScale {
    assert!(s > 0.0 && s.is_finite());
    let bits = s.to_bits();
    let exp = ((bits >> 23) & 0xFF) as i32;
    assert!(exp > 0, "subnormal scales are out of range");
    let mut mantissa: u32 = 0x80_0000 | (bits & 0x7F_FFFF);
    let mut shift: i32 = 150 - exp;
    while shift > 40 && mantissa % 2 == 0 {
        mantissa /= 2;
        shift -= 1;
    }
    assert!((16..=40).contains(&shift), "scale out of the supported range");
    QuantScale { mantissa, shift: shift as u8 }
}

fn fp_to_f64(v: i64) -> f64 {
    v as f64 / 4294967296.0
}

#[test]
fn test_grid_sensitivity_pos() {
    // x * 2 + 0.5: 0.0 -> 0.5 and 1.0 -> 2.5
    assert_eq!(YoloDetection::grid_sensitivity_adjustment_pos(0), FP_HALF);
    assert_eq!(
        YoloDetection::grid_sensitivity_adjustment_pos(FP_ONE),
        2 * FP_ONE + FP_HALF
    );
}

#[test]
fn test_grid_sensitivity_size() {
    // x^2 * 4 * anchor: 1.0 with anchor 10 -> 40.0
    assert_eq!(
        YoloDetection::grid_sensitivity_adjustment_size(FP_ONE, 10),
        40 * FP_ONE
    );
}

#[test]
fn test_decoder_shape_validation() {
    let scale = scale_from_f32(0.00392);
    // a 1x1 grid without anchors needs exactly 85 bytes
    let r = process_result(vec![0u8; 84], 640, 640, None, 1, 1, -128, scale);
    assert_eq!(r.unwrap_err(), DecodeError::MalformedOutputShape);
    let r = process_result(vec![0u8; 86], 640, 640, None, 1, 1, -128, scale);
    assert_eq!(r.unwrap_err(), DecodeError::MalformedOutputShape);
    let r = process_result(vec![0u8; 85], 640, 640, None, 1, 1, -128, scale);
    assert!(r.is_ok());
}

#[test]
fn test_decoder_anchor_count_validation() {
    let scale = scale_from_f32(0.00392);
    let anchors = vec![
        Anchor { width: 10, height: 13 },
        Anchor { width: 16, height: 30 },
    ];
    // two anchors supplied: refused even though the buffer would match
    let r = process_result(
        vec![0u8; 85 * 2],
        640,
        640,
        Some(anchors),
        1,
        1,
        -128,
        scale,
    );
    assert_eq!(r.unwrap_err(), DecodeError::MalformedOutputShape);
}

#[test]
fn test_end_to_end_single_anchor() {
    // One head, no anchors, 1x1 grid: a known byte pattern must decode to
    // the hand-computed box within 1e-4.
    let zp: i32 = -128;
    let scale_f = 0.00392f32;
    let scale = scale_from_f32(scale_f);
    let s = scale.mantissa as f64 / (1u64 << scale.shift) as f64;

    let mut buf = vec![0u8; 85];
    buf[0] = 200; // cx
    buf[1] = 150; // cy
    buf[2] = 100; // w
    buf[3] = 50; // h
    buf[4] = 180; // objectness
    buf[5 + 7] = 255; // class 7 wins

    let dets = process_result(buf, 640, 640, None, 1, 1, zp, scale).unwrap();
    assert_eq!(dets.len(), 1);
    let det = &dets[0];

    let d = |v: u8| (v as f64 - zp as f64) * s;
    let cx = d(200) * 2.0 + 0.5;
    let cy = d(150) * 2.0 + 0.5;
    let w = d(100);
    let h = d(50);
    let x = (cx - w / 2.0) / 640.0;
    let y = (cy - h / 2.0) / 640.0;

    assert!((fp_to_f64(det.x) - x).abs() < 1e-4);
    assert!((fp_to_f64(det.y) - y).abs() < 1e-4);
    assert!((fp_to_f64(det.width) - w / 640.0).abs() < 1e-4);
    assert!((fp_to_f64(det.height) - h / 640.0).abs() < 1e-4);
    assert_eq!(det.class_index, 7);
    assert!((fp_to_f64(det.confidence) - d(180)).abs() < 1e-4);
}

#[test]
fn test_class_index_tie_takes_first() {
    let scale = scale_from_f32(0.00392);
    let mut raw = vec![0u8; 10];
    raw[5] = 3;
    raw[6] = 9;
    raw[7] = 9;
    raw[8] = 2;
    let det = YoloDetection::from_raw_u8(&raw, None, 640, 640, -128, &scale, true);
    assert_eq!(det.class_index, 1);
}

#[test]
fn test_anchor_scales_extent() {
    // With a large byte and an anchor, the extent must follow
    // x^2 * 4 * anchor; compare against the no-anchor decode.
    let zp: i32 = 0;
    let scale = scale_from_f32(0.00392);
    let s = scale.mantissa as f64 / (1u64 << scale.shift) as f64;
    let mut raw = vec![0u8; 85];
    raw[2] = 128; // w byte
    raw[3] = 64; // h byte
    let anchor = Anchor { width: 16, height: 30 };
    let det = YoloDetection::from_raw_u8(&raw, Some(&anchor), 640, 640, zp, &scale, true);
    let w = 128.0 * s;
    let h = 64.0 * s;
    let expect_w = w * w * 4.0 * 16.0 / 640.0;
    let expect_h = h * h * 4.0 * 30.0 / 640.0;
    assert!((fp_to_f64(det.width) - expect_w).abs() < 1e-4);
    assert!((fp_to_f64(det.height) - expect_h).abs() < 1e-4);
}

#[test]
fn test_three_anchor_grid_order() {
    // 1x1 grid with three anchors: 255 bytes, three detections, one per
    // anchor, in anchor order; the objectness channel of anchor a lives
    // at byte (a * 85 + 4).
    let zp: i32 = 0;
    let scale = scale_from_f32(1.0);
    let mut buf = vec![0u8; 255];
    buf[4] = 10;
    buf[85 + 4] = 20;
    buf[170 + 4] = 30;
    let anchors = vec![
        Anchor { width: 10, height: 13 },
        Anchor { width: 16, height: 30 },
        Anchor { width: 33, height: 23 },
    ];
    let dets = process_result(buf, 640, 640, Some(anchors), 1, 1, zp, scale).unwrap();
    assert_eq!(dets.len(), 3);
    assert_eq!(fp_to_f64(dets[0].confidence), 10.0);
    assert_eq!(fp_to_f64(dets[1].confidence), 20.0);
    assert_eq!(fp_to_f64(dets[2].confidence), 30.0);
}

#[test]
fn test_raw_output_to_array() {
    // N, C, H * W
    // 1, 3, 2, 2
    let raw_output = vec![11, 21, 31, 41, 12, 22, 32, 42, 13, 23, 33, 43];
    // the column of each grid position gathers one value per channel
    assert_eq!(column_at(&raw_output, 3, 4, 0), vec![11, 12, 13]);
    assert_eq!(column_at(&raw_output, 3, 4, 1), vec![21, 22, 23]);
    assert_eq!(column_at(&raw_output, 3, 4, 2), vec![31, 32, 33]);
    assert_eq!(column_at(&raw_output, 3, 4, 3), vec![41, 42, 43]);
}
