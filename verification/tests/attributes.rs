use rknpu::attributes::RknnTensorAttribute;
use rknpu::context_io::{RknnInput, RknnOuput};
use rknpu::error::DecodeError;
use rknpu::quant::{QuantScale, RknnTensorQuantFormat};
use rknpu::queries::{RknnInputOutputNum, RknnQuery, RknnSdkVersion};
use rknpu::tensor_types::{RknnTensorFormat, RknnTensorType};
use rknpu::text::decode_c_string;

/// A NUL-padded fixed-size field holding the given text.
fn c_field(text: &str, size: usize) -> Vec<u8> {
    let mut v = vec![0u8; size];
    v[..text.len()].copy_from_slice(text.as_bytes());
    v
}

#[test]
fn test_decode_c_string_stops_at_nul() {
    let mut bytes = c_field("abc", 8);
    bytes[4] = b'x'; // garbage after the terminator is ignored
    assert_eq!(decode_c_string(&bytes), Ok("abc".to_string()));
}

#[test]
fn test_decode_c_string_rejects_invalid_utf8() {
    let bytes = vec![0xFFu8, 0xFE, 0x00];
    assert_eq!(decode_c_string(&bytes), Err(DecodeError::InvalidTextEncoding));
}

#[test]
fn test_decode_c_string_without_terminator() {
    let bytes = vec![b'h', b'i'];
    assert_eq!(decode_c_string(&bytes), Ok("hi".to_string()));
}

fn scale_00392() -> QuantScale {
    // 0.00392 as a binary rational, mantissa / 2^shift
    let bits = 0.00392f32.to_bits();
    let exp = ((bits >> 23) & 0xFF) as i32;
    QuantScale { mantissa: 0x80_0000 | (bits & 0x7F_FFFF), shift: (150 - exp) as u8 }
}

#[test]
fn test_attribute_from_raw_parts() {
    let mut dims = vec![0u32; 16];
    dims[0] = 1;
    dims[1] = 28;
    dims[2] = 28;
    let name = c_field("serving_default_input_1:0", 256);
    let attr = RknnTensorAttribute::from_raw_parts(
        0,
        3,
        &dims,
        &name,
        1228800,
        0, // NCHW
        2, // I8
        2, // affine
        0,
        -128,
        Some(scale_00392()),
        640,
        0,
        1228800,
        0,
    )
    .unwrap();
    assert_eq!(attr.index, 0);
    assert_eq!(attr.dims, vec![1, 28, 28]);
    assert_eq!(attr.name, "serving_default_input_1:0");
    assert_eq!(attr.len, 1228800);
    assert_eq!(attr.format, RknnTensorFormat::NCHW);
    assert_eq!(attr.data_type, RknnTensorType::I8);
    assert_eq!(
        attr.quant_type,
        RknnTensorQuantFormat::AffineScale(-128, scale_00392())
    );
    assert_eq!(attr.w_stride, 640);
    assert_eq!(attr.h_stride, 0);
    assert_eq!(attr.size_with_stride, 1228800);
    assert!(!attr.pass_through);
}

#[test]
fn test_attribute_rejects_unknown_codes() {
    let dims = vec![0u32; 16];
    let name = c_field("t", 256);
    let r = RknnTensorAttribute::from_raw_parts(
        0, 0, &dims, &name, 1, 99, 2, 0, 0, 0, None, 0, 0, 0, 0,
    );
    assert_eq!(r.unwrap_err(), DecodeError::MalformedAttribute);
    let r = RknnTensorAttribute::from_raw_parts(
        0, 0, &dims, &name, 1, 0, 99, 0, 0, 0, None, 0, 0, 0, 0,
    );
    assert_eq!(r.unwrap_err(), DecodeError::MalformedAttribute);
    let r = RknnTensorAttribute::from_raw_parts(
        0, 0, &dims, &name, 1, 0, 2, 9, 0, 0, None, 0, 0, 0, 0,
    );
    assert_eq!(r.unwrap_err(), DecodeError::MalformedAttribute);
}

#[test]
fn test_attribute_rejects_bad_name() {
    let dims = vec![0u32; 16];
    let name = vec![0xFFu8; 4];
    let r = RknnTensorAttribute::from_raw_parts(
        0, 0, &dims, &name, 1, 0, 2, 0, 0, 0, None, 0, 0, 0, 0,
    );
    assert_eq!(r.unwrap_err(), DecodeError::InvalidTextEncoding);
}

#[test]
fn test_input_matches_attribute() {
    let dims = vec![0u32; 16];
    let name = c_field("in", 256);
    let attr = RknnTensorAttribute::from_raw_parts(
        0,
        0,
        &dims,
        &name,
        6, // element count
        1, // NHWC
        5, // U16: two bytes each
        0,
        0,
        0,
        None,
        0,
        0,
        0,
        0,
    )
    .unwrap();
    let mut input = RknnInput {
        index: 0,
        buffer: vec![0u8; 12],
        pass_through: false,
        dtype: RknnTensorType::U16,
        fmt: RknnTensorFormat::NHWC,
    };
    assert!(input.matches_attribute(&attr));
    input.buffer.push(0);
    assert!(!input.matches_attribute(&attr));
    input.pass_through = true;
    assert!(input.matches_attribute(&attr));
}

#[test]
fn test_output_from_raw_parts() {
    let out = RknnOuput::from_raw_parts(2, false, true, vec![1, 2, 3]);
    assert_eq!(out.index, 2);
    assert!(!out.want_float);
    assert!(out.is_prealloc);
    assert_eq!(out.buffer, vec![1, 2, 3]);
}

#[test]
fn test_sdk_version_decoding() {
    let api = c_field("1.6.0 (9a7b5d24c@2023-12-13T17:31:11)", 256);
    let drv = c_field("0.8.2", 256);
    let v = RknnSdkVersion::from_raw_bytes(&api, &drv).unwrap();
    let expected_sdk_version = RknnSdkVersion {
        api_version: "1.6.0 (9a7b5d24c@2023-12-13T17:31:11)".to_string(),
        driver_version: "0.8.2".to_string(),
    };
    assert_eq!(v, expected_sdk_version);
    assert_eq!(RknnSdkVersion::query_flag(), RknnQuery::RKNN_QUERY_SDK_VERSION);
}

#[test]
fn test_sdk_version_rejects_bad_text() {
    let api = vec![0xC0u8, 0x00];
    let drv = c_field("0.8.2", 8);
    assert_eq!(
        RknnSdkVersion::from_raw_bytes(&api, &drv),
        Err(DecodeError::InvalidTextEncoding)
    );
}

#[test]
fn test_input_output_num() {
    let n = RknnInputOutputNum::from_raw_parts(1, 1);
    let expected_num_input_output = RknnInputOutputNum { n_input: 1_u32, n_output: 1_u32 };
    assert_eq!(n, expected_num_input_output);
    assert_eq!(RknnInputOutputNum::query_flag(), RknnQuery::RKNN_QUERY_IN_OUT_NUM);
}

#[test]
fn test_query_codes() {
    assert_eq!(RknnQuery::RKNN_QUERY_IN_OUT_NUM.code(), 0);
    assert_eq!(RknnQuery::RKNN_QUERY_INPUT_ATTR.code(), 1);
    assert_eq!(RknnQuery::RKNN_QUERY_OUTPUT_ATTR.code(), 2);
    assert_eq!(RknnQuery::RKNN_QUERY_PERF_DETAIL.code(), 3);
    assert_eq!(RknnQuery::RKNN_QUERY_PERF_RUN.code(), 4);
    assert_eq!(RknnQuery::RKNN_QUERY_SDK_VERSION.code(), 5);
}

#[test]
fn test_tensor_type_codes_round_trip() {
    for code in 0u32..=10 {
        let t = RknnTensorType::from_code(code).unwrap();
        assert_eq!(t.code(), code);
    }
    assert_eq!(RknnTensorType::from_code(11), None);
    assert_eq!(RknnTensorType::F32.element_size(), 4);
    assert_eq!(RknnTensorType::I64.element_size(), 8);
    assert_eq!(RknnTensorType::BOOL.element_size(), 1);
}

#[test]
fn test_tensor_format_codes_round_trip() {
    for code in 0u32..=4 {
        let f = RknnTensorFormat::from_code(code).unwrap();
        assert_eq!(f.code(), code);
    }
    assert_eq!(RknnTensorFormat::from_code(5), None);
}

#[test]
fn test_element_count_consistency() {
    let dims = vec![0u32; 16];
    let name = c_field("t", 256);
    let mut attr = RknnTensorAttribute::from_raw_parts(
        0, 0, &dims, &name, 1, 0, 2, 0, 0, 0, None, 0, 0, 0, 0,
    )
    .unwrap();
    attr.dims = vec![1, 28, 28];
    attr.len = 784;
    assert!(attr.element_count_consistent());
    attr.len = 785; // one more element than the shape can hold
    assert!(!attr.element_count_consistent());
    attr.dims = vec![1, 0, 28];
    attr.len = 0;
    assert!(attr.element_count_consistent());
    attr.len = 1;
    assert!(!attr.element_count_consistent());
}
