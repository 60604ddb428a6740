//! Safe, verified core of a binding to a neural-processing-unit runtime.
//!
//! The crate is split along the boundary between logic and hardware access.
//! Everything that can be stated and checked about the post-processing of a
//! YOLO-style detector — status-code mapping, tensor-attribute decoding,
//! affine quantization, the grid/anchor decode of raw output buffers, and
//! greedy overlap suppression — lives here with full contracts.  The calls
//! into the native driver itself are left to the surrounding application.

pub mod attributes;
pub mod context_io;
pub mod error;
pub mod fixed;
pub mod matmul;
pub mod nms;
pub mod pipeline;
pub mod quant;
pub mod queries;
pub mod tensor_types;
pub mod text;
pub mod yolo;
