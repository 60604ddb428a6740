//! Query kinds of the native runtime and the typed results of the simple
//! queries.
//!
//! The native `query` call takes a command code and fills a C record; the
//! surrounding application performs the call and hands the record's plain
//! fields here to be decoded.

use vstd::prelude::*;

use crate::error::DecodeError;
use crate::text::{decode_c_string, spec_c_prefix, utf8_decoded};

verus! {

/// A query command of the native runtime, with its fixed wire code.
#[derive(Clone, Copy, Debug, PartialEq, Eq)]
#[allow(non_camel_case_types)]
pub enum RknnQuery {
    /// Number of input and output tensors.
    RKNN_QUERY_IN_OUT_NUM,
    /// Attribute of an input tensor.
    RKNN_QUERY_INPUT_ATTR,
    /// Attribute of an output tensor.
    RKNN_QUERY_OUTPUT_ATTR,
    /// Detailed performance figures of the last run.
    RKNN_QUERY_PERF_DETAIL,
    /// Wall time of the last run.
    RKNN_QUERY_PERF_RUN,
    /// SDK and driver version strings.
    RKNN_QUERY_SDK_VERSION,
}

/// The wire code of each query command, in the native header's
/// enumeration order.
pub open spec fn spec_query_code(q: RknnQuery) -> int {
    match q {
        RknnQuery::RKNN_QUERY_IN_OUT_NUM => 0,
        RknnQuery::RKNN_QUERY_INPUT_ATTR => 1,
        RknnQuery::RKNN_QUERY_OUTPUT_ATTR => 2,
        RknnQuery::RKNN_QUERY_PERF_DETAIL => 3,
        RknnQuery::RKNN_QUERY_PERF_RUN => 4,
        RknnQuery::RKNN_QUERY_SDK_VERSION => 5,
    }
}

impl RknnQuery {
    /// The raw command code to hand to the native query call.
    pub fn code(&self) -> (r: u32)
        ensures
            r as int == spec_query_code(*self),
    {
        match self {
            RknnQuery::RKNN_QUERY_IN_OUT_NUM => 0,
            RknnQuery::RKNN_QUERY_INPUT_ATTR => 1,
            RknnQuery::RKNN_QUERY_OUTPUT_ATTR => 2,
            RknnQuery::RKNN_QUERY_PERF_DETAIL => 3,
            RknnQuery::RKNN_QUERY_PERF_RUN => 4,
            RknnQuery::RKNN_QUERY_SDK_VERSION => 5,
        }
    }
}

/// The SDK and driver version strings of the loaded runtime.
#[derive(Debug, PartialEq, Eq)]
pub struct RknnSdkVersion {
    /// Version of the runtime API.
    pub api_version: String,
    /// Version of the NPU driver.
    pub driver_version: String,
}

impl RknnSdkVersion {
    /// The query command this record answers.
    pub fn query_flag() -> (r: RknnQuery)
        ensures
            r == RknnQuery::RKNN_QUERY_SDK_VERSION,
    {
        RknnQuery::RKNN_QUERY_SDK_VERSION
    }

    /// Decode the two NUL-padded version fields of the native record.
    /// Fails with `InvalidTextEncoding` when either is not valid text; the
    /// API field is decoded first.
    pub fn from_raw_bytes(api_version: &Vec<u8>, drv_version: &Vec<u8>) -> (r: Result<
        RknnSdkVersion,
        DecodeError,
    >)
        ensures
            r is Ok <==> (utf8_decoded(spec_c_prefix(api_version@)) is Some && utf8_decoded(
                spec_c_prefix(drv_version@),
            ) is Some),
            r matches Ok(v) ==> {
                &&& utf8_decoded(spec_c_prefix(api_version@)) == Some(v.api_version@)
                &&& utf8_decoded(spec_c_prefix(drv_version@)) == Some(v.driver_version@)
            },
            r is Err ==> r == Err::<RknnSdkVersion, DecodeError>(DecodeError::InvalidTextEncoding),
    {
        let api = match decode_c_string(api_version) {
            Ok(s) => s,
            Err(e) => {
                return Err(e);
            },
        };
        let drv = match decode_c_string(drv_version) {
            Ok(s) => s,
            Err(e) => {
                return Err(e);
            },
        };
        Ok(RknnSdkVersion { api_version: api, driver_version: drv })
    }
}

/// The number of input and output tensors of the loaded model.
#[derive(Debug, PartialEq, Eq)]
pub struct RknnInputOutputNum {
    /// Number of input tensors.
    pub n_input: u32,
    /// Number of output tensors.
    pub n_output: u32,
}

impl RknnInputOutputNum {
    /// The query command this record answers.
    pub fn query_flag() -> (r: RknnQuery)
        ensures
            r == RknnQuery::RKNN_QUERY_IN_OUT_NUM,
    {
        RknnQuery::RKNN_QUERY_IN_OUT_NUM
    }

    /// Assemble the typed result from the record's plain fields.
    pub fn from_raw_parts(n_input: u32, n_output: u32) -> (r: RknnInputOutputNum)
        ensures
            r.n_input == n_input,
            r.n_output == n_output,
    {
        RknnInputOutputNum { n_input, n_output }
    }
}

} // verus!
