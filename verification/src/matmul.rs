//! Typed description of a matrix-multiplication job for the native
//! runtime's dedicated matmul interface.
//!
//! The native calls themselves — context creation, memory, execution —
//! live in the surrounding application; this module holds the job
//! description and its exact conversion to the plain fields of the native
//! info record.

use vstd::prelude::*;

verus! {

/// Operand and result precision of a matmul job, with the fixed wire
/// codes of the native matmul header.
#[derive(Clone, Copy, Debug, PartialEq, Eq)]
#[allow(non_camel_case_types)]
pub enum RknnMatmulType {
    /// Half-precision operands, single-precision accumulation.
    RKNN_FLOAT16_MM_FLOAT16_TO_FLOAT32,
    /// 8-bit integer operands, 32-bit integer accumulation.
    RKNN_INT8_MM_INT8_TO_INT32,
    /// 4-bit integer operands, 16-bit integer accumulation.
    RKNN_INT4_MM_INT4_TO_INT16,
}

/// The wire code of each matmul type, in the native header's enumeration
/// order, which starts at 1.
pub open spec fn spec_matmul_type_code(t: RknnMatmulType) -> int {
    match t {
        RknnMatmulType::RKNN_FLOAT16_MM_FLOAT16_TO_FLOAT32 => 1,
        RknnMatmulType::RKNN_INT8_MM_INT8_TO_INT32 => 2,
        RknnMatmulType::RKNN_INT4_MM_INT4_TO_INT16 => 3,
    }
}

impl RknnMatmulType {
    /// The raw code to hand to the native matmul creation call.
    pub fn code(&self) -> (r: u32)
        ensures
            r as int == spec_matmul_type_code(*self),
    {
        match self {
            RknnMatmulType::RKNN_FLOAT16_MM_FLOAT16_TO_FLOAT32 => 1,
            RknnMatmulType::RKNN_INT8_MM_INT8_TO_INT32 => 2,
            RknnMatmulType::RKNN_INT4_MM_INT4_TO_INT16 => 3,
        }
    }
}

/// Shape and layout of one matmul job: `A (m, k) * B (k, n) = C (m, n)`.
#[derive(Clone, Debug, PartialEq, Eq)]
pub struct RknnMatmulInfo {
    /// Rows of `A` and `C`.
    pub m: usize,
    /// Columns of `A`, rows of `B`.
    pub k: usize,
    /// Columns of `B` and `C`.
    pub n: usize,
    /// Operand and result precision.
    pub mm_type: RknnMatmulType,
    /// Whether `B` is stored in the hardware's native layout.
    pub b_native_layout: bool,
    /// Whether `A` and `C` are stored in the hardware's native layout.
    pub ac_native_layout: bool,
}

impl RknnMatmulInfo {
    /// Assemble a job description.
    pub fn new(
        m: usize,
        k: usize,
        n: usize,
        mm_type: RknnMatmulType,
        b_native_layout: bool,
        ac_native_layout: bool,
    ) -> (r: RknnMatmulInfo)
        ensures
            r == (RknnMatmulInfo { m, k, n, mm_type, b_native_layout, ac_native_layout }),
    {
        RknnMatmulInfo { m, k, n, mm_type, b_native_layout, ac_native_layout }
    }

    /// The plain fields of the native info record: the three extents as
    /// signed 32-bit integers, the type code, and the layout flags as 0
    /// or 1.
    pub fn to_raw_parts(&self) -> (r: (i32, i32, i32, u32, i32, i32))
        requires
            self.m <= i32::MAX,
            self.k <= i32::MAX,
            self.n <= i32::MAX,
        ensures
            r.0 == self.m as int,
            r.1 == self.k as int,
            r.2 == self.n as int,
            r.3 as int == spec_matmul_type_code(self.mm_type),
            r.4 == if self.b_native_layout {
                1int
            } else {
                0int
            },
            r.5 == if self.ac_native_layout {
                1int
            } else {
                0int
            },
    {
        (
            self.m as i32,
            self.k as i32,
            self.n as i32,
            self.mm_type.code(),
            if self.b_native_layout {
                1
            } else {
                0
            },
            if self.ac_native_layout {
                1
            } else {
                0
            },
        )
    }
}

} // verus!
