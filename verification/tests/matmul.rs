use std::ops::{AddAssign, Mul};

use rknpu::matmul::{RknnMatmulInfo, RknnMatmulType};

/// Reference row-major matrix multiplication used to check results of the
/// hardware path.
fn matmul<T: Mul<T, Output = T> + Default + AddAssign<T> + Into<f32> + Copy + Clone>(
    a: &[T],
    b: &[T],
    m: usize,
    k: usize,
    n: usize,
) -> Vec<f32> {
    let mut c = vec![0.0; m * n];
    for i in 0..m {
        for j in 0..n {
            let mut acc = T::default();
            for k_idx in 0..k {
                acc += a[i * k + k_idx] * b[k_idx * n + j]
            }
            c[i * n + j] = acc.into();
        }
    }

    c
}

#[test]
fn test_matmul_ref_f32() {
    let a = [1.0, 2.0, 3.0, 4.0];
    let b = [1.0, 2.0, 3.0, 4.0];
    let res = matmul(a.as_slice(), b.as_slice(), 2, 2, 2);
    assert_eq!(res, vec![7.0, 10.0, 15.0, 22.0]);
}

#[test]
fn test_matmul_type_codes() {
    assert_eq!(RknnMatmulType::RKNN_FLOAT16_MM_FLOAT16_TO_FLOAT32.code(), 1);
    assert_eq!(RknnMatmulType::RKNN_INT8_MM_INT8_TO_INT32.code(), 2);
    assert_eq!(RknnMatmulType::RKNN_INT4_MM_INT4_TO_INT16.code(), 3);
}

#[test]
fn test_matmul_info_to_raw_parts() {
    let info = RknnMatmulInfo::new(
        64,
        256,
        256,
        RknnMatmulType::RKNN_FLOAT16_MM_FLOAT16_TO_FLOAT32,
        false,
        true,
    );
    assert_eq!(info.m, 64);
    assert_eq!(info.k, 256);
    assert_eq!(info.n, 256);
    assert_eq!(info.to_raw_parts(), (64, 256, 256, 1, 0, 1));
}
