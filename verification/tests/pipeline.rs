use rknpu::error::DecodeError;
use rknpu::pipeline::{post_process, DetectionHead};
use rknpu::quant::QuantScale;
use rknpu::yolo::Anchor;

fn fp(v: f64) -> i64 {
    (v * 4294967296.0).round() as i64
}

fn fp_to_f64(v: i64) -> f64 {
    v as f64 / 4294967296.0
}

/// A scale of exactly 1/256.
fn unit_scale() -> QuantScale {
    QuantScale { mantissa: 1 << 16, shift: 24 }
}

fn head(buffer: Vec<u8>, anchors: Option<Vec<Anchor>>, grid: usize) -> DetectionHead {
    DetectionHead { buffer, anchors, grid_x: grid, grid_y: grid, zp: 0, scale: unit_scale() }
}

#[test]
fn test_post_process_two_heads() {
    // Two anchor-free 1x1 heads; only the second clears the confidence
    // bar, so exactly its detection survives.
    let mut low = vec![0u8; 85];
    low[4] = 10; // objectness 10/256
    let mut high = vec![0u8; 85];
    high[4] = 200; // objectness 200/256
    high[5 + 3] = 1; // class 3
    let heads = vec![head(low, None, 1), head(high, None, 1)];
    let kept = post_process(heads, 640, 640, fp(0.5), fp(0.5)).unwrap();
    assert_eq!(kept.len(), 1);
    assert_eq!(kept[0].class_index, 3);
    assert!((fp_to_f64(kept[0].confidence) - 200.0 / 256.0).abs() < 1e-9);
}

#[test]
fn test_post_process_concatenates_in_head_order() {
    let mut first = vec![0u8; 85];
    first[2] = 100;
    first[3] = 100;
    first[4] = 120;
    let mut second = vec![0u8; 85];
    second[2] = 10;
    second[3] = 10;
    second[4] = 130;
    let heads = vec![head(first, None, 1), head(second, None, 1)];
    // both pass the bar; nothing overlaps enough to be suppressed
    let kept = post_process(heads, 640, 640, fp(0.1), fp(0.5)).unwrap();
    assert_eq!(kept.len(), 2);
    assert!((fp_to_f64(kept[0].confidence) - 120.0 / 256.0).abs() < 1e-9);
    assert!((fp_to_f64(kept[1].confidence) - 130.0 / 256.0).abs() < 1e-9);
}

#[test]
fn test_post_process_suppresses_duplicates() {
    // Two identical strong detections from two heads: the forward pass
    // drops the first (it overlaps the one after it) and keeps the last.
    let mut hypo = vec![0u8; 85];
    hypo[2] = 100; // width byte
    hypo[3] = 100; // height byte
    hypo[4] = 200; // objectness
    let heads = vec![head(hypo.clone(), None, 1), head(hypo, None, 1)];
    let kept = post_process(heads, 640, 640, fp(0.5), fp(0.5)).unwrap();
    assert_eq!(kept.len(), 1);
}

#[test]
fn test_post_process_bad_shape() {
    let heads = vec![head(vec![0u8; 84], None, 1)];
    assert_eq!(
        post_process(heads, 640, 640, fp(0.5), fp(0.5)),
        Err(DecodeError::MalformedOutputShape)
    );
}

#[test]
fn test_post_process_bad_anchor_count() {
    let anchors = vec![Anchor { width: 10, height: 13 }];
    let heads = vec![head(vec![0u8; 85], Some(anchors), 1)];
    assert_eq!(
        post_process(heads, 640, 640, fp(0.5), fp(0.5)),
        Err(DecodeError::MalformedOutputShape)
    );
}
