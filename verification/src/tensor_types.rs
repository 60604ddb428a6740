//! Tensor layout and element-type enumerations of the native runtime,
//! with their fixed wire codes.

use vstd::prelude::*;

verus! {

/// Memory layout of a tensor, as the native runtime enumerates it.
#[derive(Clone, Copy, Debug, PartialEq, Eq)]
#[allow(non_camel_case_types)]
pub enum RknnTensorFormat {
    /// Batch, channel, height, width.
    NCHW,
    /// Batch, height, width, channel.
    NHWC,
    /// Channel-tiled hardware layout.
    NC1HWC2,
    /// No layout declared.
    UNDEFINED,
    /// The runtime's end-of-table marker.
    MAX,
}

/// The layout a raw format code denotes; codes follow the native header's
/// enumeration order.
pub open spec fn spec_format_of(code: int) -> Option<RknnTensorFormat> {
    if code == 0 {
        Some(RknnTensorFormat::NCHW)
    } else if code == 1 {
        Some(RknnTensorFormat::NHWC)
    } else if code == 2 {
        Some(RknnTensorFormat::NC1HWC2)
    } else if code == 3 {
        Some(RknnTensorFormat::UNDEFINED)
    } else if code == 4 {
        Some(RknnTensorFormat::MAX)
    } else {
        None
    }
}

impl RknnTensorFormat {
    /// Decode a raw format code.
    pub fn from_code(code: u32) -> (r: Option<Self>)
        ensures
            r == spec_format_of(code as int),
    {
        match code {
            0 => Some(RknnTensorFormat::NCHW),
            1 => Some(RknnTensorFormat::NHWC),
            2 => Some(RknnTensorFormat::NC1HWC2),
            3 => Some(RknnTensorFormat::UNDEFINED),
            4 => Some(RknnTensorFormat::MAX),
            _ => None,
        }
    }

    /// The raw code of this layout.
    pub fn code(&self) -> (r: u32)
        ensures
            spec_format_of(r as int) == Some(*self),
    {
        match self {
            RknnTensorFormat::NCHW => 0,
            RknnTensorFormat::NHWC => 1,
            RknnTensorFormat::NC1HWC2 => 2,
            RknnTensorFormat::UNDEFINED => 3,
            RknnTensorFormat::MAX => 4,
        }
    }
}

/// Element type of a tensor, as the native runtime enumerates it.
#[derive(Clone, Copy, Debug, PartialEq, Eq)]
#[allow(non_camel_case_types)]
pub enum RknnTensorType {
    /// 32-bit float.
    F32,
    /// 16-bit float.
    F16,
    /// Signed byte.
    I8,
    /// Unsigned byte.
    U8,
    /// Signed 16-bit integer.
    I16,
    /// Unsigned 16-bit integer.
    U16,
    /// Signed 32-bit integer.
    I32,
    /// Unsigned 32-bit integer.
    U32,
    /// Signed 64-bit integer.
    I64,
    /// Boolean.
    BOOL,
    /// The runtime's end-of-table marker.
    MAX,
}

/// The element type a raw type code denotes; codes follow the native
/// header's enumeration order.
pub open spec fn spec_type_of(code: int) -> Option<RknnTensorType> {
    if code == 0 {
        Some(RknnTensorType::F32)
    } else if code == 1 {
        Some(RknnTensorType::F16)
    } else if code == 2 {
        Some(RknnTensorType::I8)
    } else if code == 3 {
        Some(RknnTensorType::U8)
    } else if code == 4 {
        Some(RknnTensorType::I16)
    } else if code == 5 {
        Some(RknnTensorType::U16)
    } else if code == 6 {
        Some(RknnTensorType::I32)
    } else if code == 7 {
        Some(RknnTensorType::U32)
    } else if code == 8 {
        Some(RknnTensorType::I64)
    } else if code == 9 {
        Some(RknnTensorType::BOOL)
    } else if code == 10 {
        Some(RknnTensorType::MAX)
    } else {
        None
    }
}

/// Bytes one element of the type occupies; 0 for the end-of-table marker,
/// which sizes nothing.
pub open spec fn spec_element_size(t: RknnTensorType) -> int {
    match t {
        RknnTensorType::F32 => 4,
        RknnTensorType::F16 => 2,
        RknnTensorType::I8 => 1,
        RknnTensorType::U8 => 1,
        RknnTensorType::I16 => 2,
        RknnTensorType::U16 => 2,
        RknnTensorType::I32 => 4,
        RknnTensorType::U32 => 4,
        RknnTensorType::I64 => 8,
        RknnTensorType::BOOL => 1,
        RknnTensorType::MAX => 0,
    }
}

impl RknnTensorType {
    /// Decode a raw element-type code.
    pub fn from_code(code: u32) -> (r: Option<Self>)
        ensures
            r == spec_type_of(code as int),
    {
        match code {
            0 => Some(RknnTensorType::F32),
            1 => Some(RknnTensorType::F16),
            2 => Some(RknnTensorType::I8),
            3 => Some(RknnTensorType::U8),
            4 => Some(RknnTensorType::I16),
            5 => Some(RknnTensorType::U16),
            6 => Some(RknnTensorType::I32),
            7 => Some(RknnTensorType::U32),
            8 => Some(RknnTensorType::I64),
            9 => Some(RknnTensorType::BOOL),
            10 => Some(RknnTensorType::MAX),
            _ => None,
        }
    }

    /// The raw code of this element type.
    pub fn code(&self) -> (r: u32)
        ensures
            spec_type_of(r as int) == Some(*self),
    {
        match self {
            RknnTensorType::F32 => 0,
            RknnTensorType::F16 => 1,
            RknnTensorType::I8 => 2,
            RknnTensorType::U8 => 3,
            RknnTensorType::I16 => 4,
            RknnTensorType::U16 => 5,
            RknnTensorType::I32 => 6,
            RknnTensorType::U32 => 7,
            RknnTensorType::I64 => 8,
            RknnTensorType::BOOL => 9,
            RknnTensorType::MAX => 10,
        }
    }

    /// Bytes one element occupies, 0 for the end-of-table marker.
    pub fn element_size(&self) -> (r: usize)
        ensures
            r as int == spec_element_size(*self),
    {
        match self {
            RknnTensorType::F32 => 4,
            RknnTensorType::F16 => 2,
            RknnTensorType::I8 => 1,
            RknnTensorType::U8 => 1,
            RknnTensorType::I16 => 2,
            RknnTensorType::U16 => 2,
            RknnTensorType::I32 => 4,
            RknnTensorType::U32 => 4,
            RknnTensorType::I64 => 8,
            RknnTensorType::BOOL => 1,
            RknnTensorType::MAX => 0,
        }
    }
}

} // verus!
