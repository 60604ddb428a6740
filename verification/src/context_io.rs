//! Typed input and output buffers of one inference pass.
//!
//! These are the owned, plain-value forms of the native input and output
//! descriptors: the surrounding application converts them to and from the
//! C records at the call boundary, and copies driver-owned output memory
//! into an owned buffer before anything else runs.

use vstd::prelude::*;

use crate::attributes::RknnTensorAttribute;
use crate::tensor_types::{spec_element_size, RknnTensorFormat, RknnTensorType};

verus! {

/// One input tensor handed to an inference pass.
#[derive(Debug)]
pub struct RknnInput {
    /// Input index.
    pub index: u32,
    /// Input data buffer.
    pub buffer: Vec<u8>,
    /// Pass-through mode: when set, the buffer goes to the model's input
    /// node unconverted and the declared type and format are ignored.
    pub pass_through: bool,
    /// Data type of the input data.
    pub dtype: RknnTensorType,
    /// Data format of the input data.
    pub fmt: RknnTensorFormat,
}

impl RknnInput {
    /// Whether this input's buffer length is consistent with the declared
    /// tensor: in pass-through mode no check applies; otherwise the buffer
    /// must hold exactly `element count * element size` bytes of the
    /// attribute's element type.
    pub fn matches_attribute(&self, attr: &RknnTensorAttribute) -> (r: bool)
        ensures
            r == (self.pass_through || (spec_element_size(attr.data_type) != 0
                && self.buffer@.len() == (attr.len as int) * spec_element_size(attr.data_type))),
    {
        if self.pass_through {
            return true;
        }
        let size = attr.data_type.element_size();
        if size == 0 {
            return false;
        }
        let buffer_len: usize = self.buffer.len();
        match attr.len.checked_mul(size) {
            Some(expected) => expected == buffer_len,
            None => false,
        }
    }
}

/// One output buffer of an inference pass, fully owned: the bytes are a
/// copy of the driver's memory, taken before the next driver call could
/// invalidate it.
#[derive(Debug)]
pub struct RknnOuput {
    /// Whether the runtime was asked to convert this output to floats.
    pub want_float: bool,
    /// Whether the caller pre-allocated the buffer.
    pub is_prealloc: bool,
    /// Output index.
    pub index: u32,
    /// Output data buffer.
    pub buffer: Vec<u8>,
}

impl RknnOuput {
    /// Assemble an owned output from the plain fields of the native
    /// descriptor and an owned copy of its bytes.
    pub fn from_raw_parts(index: u32, want_float: bool, is_prealloc: bool, buffer: Vec<u8>) -> (r:
        RknnOuput)
        ensures
            r.index == index,
            r.want_float == want_float,
            r.is_prealloc == is_prealloc,
            r.buffer == buffer,
    {
        RknnOuput { want_float, is_prealloc, index, buffer }
    }
}

} // verus!
