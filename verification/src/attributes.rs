//! Typed tensor attributes, decoded from the raw fields of the native
//! per-tensor attribute record.
//!
//! Each query of the native runtime fills a fixed-size C record; the
//! surrounding application copies its plain fields out and hands them
//! here, where every step of the interpretation — the dimension prefix,
//! the NUL-padded name, the layout, type and quantization codes — is
//! stated and checked.

use vstd::prelude::*;

use crate::error::DecodeError;
use crate::quant::{QuantScale, RknnTensorQuantFormat};
use crate::tensor_types::{
    spec_format_of, spec_type_of, RknnTensorFormat, RknnTensorType,
};
use crate::text::{decode_c_string, spec_c_prefix, utf8_decoded};

verus! {

/// The decoded attribute record of one input or output tensor.
#[derive(Debug, Clone, PartialEq)]
pub struct RknnTensorAttribute {
    /// Index of the tensor in the model.
    pub index: usize,
    /// Dimensions of the tensor.
    pub dims: Vec<u32>,
    /// Name of the tensor.
    pub name: String,
    /// Number of elements of the tensor.
    pub len: usize,
    /// Memory layout of the tensor.
    pub format: RknnTensorFormat,
    /// Element type of the tensor.
    pub data_type: RknnTensorType,
    /// Quantization scheme of the tensor.
    pub quant_type: RknnTensorQuantFormat,
    /// Stride along the width dimension; 0 means equal to the width.
    pub w_stride: u32,
    /// Stride along the height dimension; 0 means equal to the height.
    pub h_stride: u32,
    /// Byte size of the tensor including stride padding.
    pub size_with_stride: u32,
    /// Whether data bypasses the runtime's layout conversion.
    pub pass_through: bool,
}

impl RknnTensorAttribute {
    /// Decode an attribute from the plain fields of the native record.
    ///
    /// `dims` is the record's fixed dimension array, of which the first
    /// `n_dims` entries are meaningful; `name` is the record's NUL-padded
    /// name field; `scale` is the record's scale already brought to
    /// binary-rational form, or nothing when that failed.  Unknown layout,
    /// type or quantization codes are `MalformedAttribute`; a name that is
    /// not valid text is `InvalidTextEncoding`.
    pub fn from_raw_parts(
        index: u32,
        n_dims: u32,
        dims: &Vec<u32>,
        name: &Vec<u8>,
        n_elems: u32,
        fmt: u32,
        type_code: u32,
        qnt_type: u32,
        fl: i8,
        zp: i32,
        scale: Option<QuantScale>,
        w_stride: u32,
        h_stride: u32,
        size_with_stride: u32,
        pass_through: u8,
    ) -> (r: Result<RknnTensorAttribute, DecodeError>)
        requires
            n_dims as int <= dims@.len(),
        ensures
            ({
                let fmt_ok = spec_format_of(fmt as int) is Some;
                let ty_ok = spec_type_of(type_code as int) is Some;
                let qnt_ok = RknnTensorQuantFormat::spec_quant_format(qnt_type, fl, zp, scale)
                    is Some;
                let name_ok = utf8_decoded(spec_c_prefix(name@)) is Some;
                &&& r is Ok <==> fmt_ok && ty_ok && qnt_ok && name_ok
                &&& !(fmt_ok && ty_ok && qnt_ok) ==> r == Err::<RknnTensorAttribute, DecodeError>(
                    DecodeError::MalformedAttribute,
                )
                &&& fmt_ok && ty_ok && qnt_ok && !name_ok ==> r == Err::<
                    RknnTensorAttribute,
                    DecodeError,
                >(DecodeError::InvalidTextEncoding)
                &&& r matches Ok(a) ==> {
                    &&& a.index == index as usize
                    &&& a.dims@ == dims@.take(n_dims as int)
                    &&& utf8_decoded(spec_c_prefix(name@)) == Some(a.name@)
                    &&& a.len == n_elems as usize
                    &&& Some(a.format) == spec_format_of(fmt as int)
                    &&& Some(a.data_type) == spec_type_of(type_code as int)
                    &&& Some(a.quant_type) == RknnTensorQuantFormat::spec_quant_format(
                        qnt_type,
                        fl,
                        zp,
                        scale,
                    )
                    &&& a.quant_type.well_formed()
                    &&& a.w_stride == w_stride
                    &&& a.h_stride == h_stride
                    &&& a.size_with_stride == size_with_stride
                    &&& a.pass_through == (pass_through > 0)
                }
            }),
    {
        let format = match RknnTensorFormat::from_code(fmt) {
            Some(f) => f,
            None => {
                return Err(DecodeError::MalformedAttribute);
            },
        };
        let data_type = match RknnTensorType::from_code(type_code) {
            Some(t) => t,
            None => {
                return Err(DecodeError::MalformedAttribute);
            },
        };
        let quant_type = match RknnTensorQuantFormat::from_spec(qnt_type, fl, zp, scale) {
            Ok(q) => q,
            Err(e) => {
                return Err(e);
            },
        };
        let name_str = match decode_c_string(name) {
            Ok(s) => s,
            Err(e) => {
                return Err(e);
            },
        };
        let n: usize = n_dims as usize;
        let mut dims_out: Vec<u32> = Vec::new();
        let mut i: usize = 0;
        while i < n
            invariant
                i <= n,
                n <= dims@.len(),
                dims_out@ == dims@.take(i as int),
            decreases n - i,
        {
            dims_out.push(dims[i]);
            proof {
                assert(dims_out@ =~= dims@.take(i as int + 1));
            }
            i = i + 1;
        }
        Ok(
            RknnTensorAttribute {
                index: index as usize,
                dims: dims_out,
                name: name_str,
                len: n_elems as usize,
                format,
                data_type,
                quant_type,
                w_stride,
                h_stride,
                size_with_stride,
                pass_through: pass_through > 0,
            },
        )
    }
}

/// Product of a dimension vector, the element count a shape implies.
pub open spec fn spec_dims_product(dims: Seq<u32>) -> int
    decreases dims.len(),
{
    if dims.len() == 0 {
        1
    } else {
        spec_dims_product(dims.drop_last()) * dims.last()
    }
}

/// A zero anywhere makes the whole product zero.
proof fn lemma_dims_product_zero(dims: Seq<u32>, k: int)
    requires
        0 <= k < dims.len(),
        dims[k] == 0,
    ensures
        spec_dims_product(dims) == 0,
    decreases dims.len(),
{
    if k < dims.len() - 1 {
        lemma_dims_product_zero(dims.drop_last(), k);
    }
}

/// With no zero dimension the product is positive, and extending the
/// prefix can only grow it.
proof fn lemma_dims_product_monotone(dims: Seq<u32>, i: int)
    requires
        0 <= i <= dims.len(),
        forall|k: int| 0 <= k < dims.len() ==> dims[k] >= 1,
    ensures
        1 <= spec_dims_product(dims.take(i)) <= spec_dims_product(dims),
    decreases dims.len() - i,
{
    if i == dims.len() {
        assert(dims.take(i) =~= dims);
        lemma_dims_product_positive(dims);
    } else {
        lemma_dims_product_monotone(dims, i + 1);
        assert(dims.take(i + 1).drop_last() =~= dims.take(i));
        assert(forall|k: int| 0 <= k < i ==> dims.take(i)[k] == dims[k]);
        lemma_dims_product_positive(dims.take(i));
        let p = spec_dims_product(dims.take(i));
        assert(spec_dims_product(dims.take(i + 1)) == p * dims[i]);
        assert(p <= p * dims[i]) by (nonlinear_arith)
            requires
                p >= 1,
                dims[i] >= 1,
        ;
    }
}

/// A product of positive factors is at least one.
proof fn lemma_dims_product_positive(dims: Seq<u32>)
    requires
        forall|k: int| 0 <= k < dims.len() ==> dims[k] >= 1,
    ensures
        spec_dims_product(dims) >= 1,
    decreases dims.len(),
{
    if dims.len() > 0 {
        lemma_dims_product_positive(dims.drop_last());
        let p = spec_dims_product(dims.drop_last());
        assert(p * dims.last() >= 1) by (nonlinear_arith)
            requires
                p >= 1,
                dims.last() >= 1,
        ;
    }
}

impl RknnTensorAttribute {
    /// Whether the declared element count is consistent with the shape:
    /// at most the product of the dimensions, the invariant a well-formed
    /// attribute record keeps.
    pub fn element_count_consistent(&self) -> (r: bool)
        ensures
            r == (self.len as int <= spec_dims_product(self.dims@)),
    {
        let n = self.dims.len();
        let mut i: usize = 0;
        while i < n
            invariant
                i <= n,
                n == self.dims@.len(),
                forall|k: int| 0 <= k < i ==> self.dims@[k] >= 1,
            decreases n - i,
        {
            if self.dims[i] == 0 {
                proof {
                    lemma_dims_product_zero(self.dims@, i as int);
                }
                return self.len == 0;
            }
            i = i + 1;
        }
        let mut prod: usize = 1;
        let mut j: usize = 0;
        while j < n
            invariant
                j <= n,
                n == self.dims@.len(),
                forall|k: int| 0 <= k < n ==> self.dims@[k] >= 1,
                prod as int == spec_dims_product(self.dims@.take(j as int)),
                prod >= 1,
            decreases n - j,
        {
            proof {
                assert(self.dims@.take(j as int + 1).drop_last() =~= self.dims@.take(j as int));
            }
            prod = match prod.checked_mul(self.dims[j] as usize) {
                Some(p) => p,
                None => {
                    proof {
                        lemma_dims_product_monotone(self.dims@, j as int + 1);
                    }
                    return true;
                },
            };
            proof {
                assert(forall|k: int|
                    0 <= k < j + 1 ==> self.dims@.take(j as int + 1)[k] == self.dims@[k]);
                lemma_dims_product_positive(self.dims@.take(j as int + 1));
            }
            j = j + 1;
        }
        proof {
            assert(self.dims@.take(n as int) =~= self.dims@);
        }
        self.len <= prod
    }
}

} // verus!