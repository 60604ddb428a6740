//! Error taxonomy of the crate.
//!
//! `RknnError` mirrors the closed table of status codes that the native
//! runtime returns from every call; `check_result` maps a raw status code to
//! a typed result exactly once, at the boundary.  `DecodeError` covers the
//! failures of the crate's own decoding logic: quantization schemes it does
//! not handle, output buffers whose size contradicts the declared shape, and
//! text fields that are not valid UTF-8.

use vstd::prelude::*;

verus! {

/// A failure reported by the native runtime as a negative status code.
#[derive(Clone, Copy, Debug, PartialEq, Eq)]
pub enum RknnError {
    /// Execution failed.
    Fail,
    /// Execution timeout.
    Timeout,
    /// Device is unavailable.
    UnavailableDevice,
    /// Memory malloc fail.
    MallocFail,
    /// Parameter is invalid.
    InvalidParameter,
    /// Model is invalid.
    InvalidModel,
    /// Context is invalid.
    InvalidContext,
    /// Input is invalid.
    InvalidInput,
    /// Output is invalid.
    InvalidOutput,
    /// The device is unmatched; the SDK and the driver disagree.
    UnmatchedDevice,
    /// The model was pre-compiled in a way the current driver cannot load.
    IncompatibleModel,
    /// The model's optimization level is not compatible with the driver.
    IncompatibleOptimization,
    /// The model targets another platform.
    UnmatchedTargetPlatform,
    /// A status code outside the documented table.
    Unknown,
}

/// A failure of the crate's own decoding logic, as opposed to a status code
/// of the native runtime.
#[derive(Clone, Copy, Debug, PartialEq, Eq)]
pub enum DecodeError {
    /// A quantization scheme was required but the tensor declares none, or
    /// declares one this crate does not implement.
    UnsupportedQuantization,
    /// An output buffer's length contradicts the declared channel and grid
    /// dimensions, or the anchor list has the wrong length.
    MalformedOutputShape,
    /// A name or version string from the native layer is not valid text.
    InvalidTextEncoding,
    /// An attribute record holds a code or a scale value outside the
    /// representable range.
    MalformedAttribute,
}

/// The meaning of each raw status code, as the fixed table of the native
/// runtime's header defines it.  Zero is success and never reaches this map;
/// every unlisted code means `Unknown`.
pub open spec fn spec_error_of(code: int) -> RknnError {
    if code == -1 {
        RknnError::Fail
    } else if code == -2 {
        RknnError::Timeout
    } else if code == -3 {
        RknnError::UnavailableDevice
    } else if code == -4 {
        RknnError::MallocFail
    } else if code == -5 {
        RknnError::InvalidParameter
    } else if code == -6 {
        RknnError::InvalidModel
    } else if code == -7 {
        RknnError::InvalidContext
    } else if code == -8 {
        RknnError::InvalidInput
    } else if code == -9 {
        RknnError::InvalidOutput
    } else if code == -10 {
        RknnError::UnmatchedDevice
    } else if code == -11 {
        RknnError::IncompatibleModel
    } else if code == -12 {
        RknnError::IncompatibleOptimization
    } else if code == -13 {
        RknnError::UnmatchedTargetPlatform
    } else {
        RknnError::Unknown
    }
}

/// Map a raw status code to the error it denotes.
pub fn error_from_code(code: i32) -> (r: RknnError)
    ensures
        r == spec_error_of(code as int),
{
    match code {
        -1 => RknnError::Fail,
        -2 => RknnError::Timeout,
        -3 => RknnError::UnavailableDevice,
        -4 => RknnError::MallocFail,
        -5 => RknnError::InvalidParameter,
        -6 => RknnError::InvalidModel,
        -7 => RknnError::InvalidContext,
        -8 => RknnError::InvalidInput,
        -9 => RknnError::InvalidOutput,
        -10 => RknnError::UnmatchedDevice,
        -11 => RknnError::IncompatibleModel,
        -12 => RknnError::IncompatibleOptimization,
        -13 => RknnError::UnmatchedTargetPlatform,
        _ => RknnError::Unknown,
    }
}

/// Turn a raw status code into a typed result: zero is success, everything
/// else is the error the code table assigns.
pub fn check_result(rknn_result: i32) -> (r: Result<(), RknnError>)
    ensures
        rknn_result == 0 <==> r is Ok,
        rknn_result != 0 ==> r == Result::<(), RknnError>::Err(spec_error_of(rknn_result as int)),
{
    if rknn_result == 0 {
        Ok(())
    } else {
        Err(error_from_code(rknn_result))
    }
}

} // verus!
