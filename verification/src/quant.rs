//! Affine quantization: the codec between a tensor's `u8` storage and the
//! real values it denotes.
//!
//! A quantized byte `v` with zero point `zp` and positive scale `s` denotes
//! the real number `(v - zp) * s`.  The scale of every scheme this crate
//! handles is a positive binary rational, `mantissa / 2^shift`, which is
//! exactly the set of values a 32-bit float in the working range can take;
//! with the scale in that form the whole codec is exact integer arithmetic.
//! `QValue`, a signed numerator with a binary shift, carries dequantized
//! values with no rounding at all, so dequantizing and re-quantizing a byte
//! gives that byte back, for every byte and every valid scheme.

use vstd::prelude::*;
use vstd::arithmetic::power2::{lemma2_to64, lemma2_to64_rest, lemma_pow2_adds, lemma_pow2_pos, pow2};
use vstd::arithmetic::mul::lemma_mul_is_associative;

use crate::error::DecodeError;
use crate::fixed::{lemma_round_rat_exact, pow2_i128, round_div, round_rat};

verus! {

/// A positive binary-rational scale factor: the value `mantissa / 2^shift`.
///
/// The bounds of `well_formed` admit every scale an 8-bit affine scheme
/// uses in practice (all values in `[2^-16, 256)` at 24 bits of precision,
/// the significand width of a 32-bit float) and keep every product the
/// codec and the decoder form inside `i128`.
#[derive(Clone, Copy, Debug, PartialEq, Eq)]
pub struct QuantScale {
    /// Numerator of the scale; a float significand, so below `2^24`.
    pub mantissa: u32,
    /// Binary logarithm of the denominator.
    pub shift: u8,
}

impl QuantScale {
    /// Bounds under which the codec's arithmetic is exact and overflow-free.
    pub open spec fn well_formed(&self) -> bool {
        &&& 1 <= self.mantissa < 0x100_0000
        &&& 16 <= self.shift <= 40
    }

    /// Runtime check of `well_formed`.
    pub fn check(&self) -> (r: bool)
        ensures
            r == self.well_formed(),
    {
        1 <= self.mantissa && self.mantissa < 0x100_0000 && 16 <= self.shift && self.shift <= 40
    }
}

/// An exact dequantized value: the binary rational `num / 2^shift`.
#[derive(Clone, Copy, Debug, PartialEq, Eq)]
pub struct QValue {
    /// Signed numerator.
    pub num: i64,
    /// Binary logarithm of the denominator.
    pub shift: u8,
}

impl QValue {
    /// The denominator must stay expressible as a 64-bit power of two.
    pub open spec fn well_formed(&self) -> bool {
        self.shift <= 63
    }
}

/// The quantization scheme a tensor attribute declares.
#[derive(Clone, Copy, Debug, PartialEq, Eq)]
pub enum RknnTensorQuantFormat {
    /// The tensor is not quantized.
    Unquantized,
    /// Dynamic fixed point with the given number of fractional bits; this
    /// crate recognizes but does not implement it.
    DynamicFixedPoint(i8),
    /// Affine asymmetric quantization with a zero point and a scale.
    AffineScale(i32, QuantScale),
}

impl RknnTensorQuantFormat {
    /// A scheme is well formed when the scale it carries, if any, is.
    pub open spec fn well_formed(&self) -> bool {
        match *self {
            RknnTensorQuantFormat::AffineScale(_, s) => s.well_formed(),
            _ => true,
        }
    }

    /// The scheme a raw quantization record denotes.  Code 0 declares no
    /// quantization, code 1 dynamic fixed point with `fixed_point`
    /// fractional bits, and code 2 an affine scheme, whose scale must have
    /// been brought to binary-rational form by the caller; a missing or
    /// out-of-range scale and any other code denote nothing.
    pub open spec fn spec_quant_format(
        quant_type: u32,
        fixed_point: i8,
        zero_point: i32,
        scale: Option<QuantScale>,
    ) -> Option<RknnTensorQuantFormat> {
        if quant_type == 0 {
            Some(RknnTensorQuantFormat::Unquantized)
        } else if quant_type == 1 {
            Some(RknnTensorQuantFormat::DynamicFixedPoint(fixed_point))
        } else if quant_type == 2 {
            match scale {
                Some(s) => if s.well_formed() {
                    Some(RknnTensorQuantFormat::AffineScale(zero_point, s))
                } else {
                    None
                },
                None => None,
            }
        } else {
            None
        }
    }

    /// Decode the scheme from the raw fields of a native attribute record;
    /// a record `spec_quant_format` gives no meaning to is malformed.
    pub fn from_spec(
        quant_type: u32,
        fixed_point: i8,
        zero_point: i32,
        scale: Option<QuantScale>,
    ) -> (r: Result<Self, DecodeError>)
        ensures
            r == match Self::spec_quant_format(quant_type, fixed_point, zero_point, scale) {
                Some(f) => Ok::<Self, DecodeError>(f),
                None => Err::<Self, DecodeError>(DecodeError::MalformedAttribute),
            },
            r matches Ok(f) ==> f.well_formed(),
    {
        match quant_type {
            0 => Ok(RknnTensorQuantFormat::Unquantized),
            1 => Ok(RknnTensorQuantFormat::DynamicFixedPoint(fixed_point)),
            2 => match scale {
                Some(s) => if s.check() {
                    Ok(RknnTensorQuantFormat::AffineScale(zero_point, s))
                } else {
                    Err(DecodeError::MalformedAttribute)
                },
                None => Err(DecodeError::MalformedAttribute),
            },
            _ => Err(DecodeError::MalformedAttribute),
        }
    }

    /// The zero point and scale of an affine scheme; `None` for the others.
    pub fn zp_scale(&self) -> (r: Option<(i32, QuantScale)>)
        ensures
            r == match *self {
                RknnTensorQuantFormat::AffineScale(zp, s) => Some((zp, s)),
                _ => None::<(i32, QuantScale)>,
            },
    {
        match self {
            RknnTensorQuantFormat::Unquantized => None,
            RknnTensorQuantFormat::AffineScale(zp, scale) => Some((*zp, *scale)),
            RknnTensorQuantFormat::DynamicFixedPoint(_) => None,
        }
    }
}

/// Clamp an integer into the storage range of a quantized byte.
pub open spec fn clamp_u8(v: int) -> int {
    if v < 0 {
        0
    } else if v > 255 {
        255
    } else {
        v
    }
}

/// What quantization returns: the value `xnum / 2^xshift` divided by the
/// scale `mant / 2^sshift`, rounded to the nearest integer, shifted by the
/// zero point and clamped to a byte.
pub open spec fn spec_quantize(xnum: int, xshift: nat, zp: int, mant: int, sshift: nat) -> int {
    clamp_u8(round_rat(xnum * pow2(sshift), pow2(xshift) * mant) + zp)
}

/// The exact value dequantization returns, as a numerator over `2^sshift`.
pub open spec fn spec_dequantize(v: int, zp: int, mant: int) -> int {
    (v - zp) * mant
}

/// Quantize an exact value: `round(x / scale) + zp`, clamped to `[0, 255]`.
pub fn quantize_value(x: &QValue, zp: i32, scale: &QuantScale) -> (r: u8)
    requires
        x.well_formed(),
        scale.well_formed(),
    ensures
        r as int == spec_quantize(
            x.num as int,
            x.shift as nat,
            zp as int,
            scale.mantissa as int,
            scale.shift as nat,
        ),
{
    proof {
        lemma2_to64();
        lemma2_to64_rest();
        lemma_pow2_pos(x.shift as nat);
        lemma_pow2_pos(scale.shift as nat);
        if (scale.shift as nat) < 40 {
            vstd::arithmetic::power2::lemma_pow2_strictly_increases(scale.shift as nat, 40);
        }
        if (x.shift as nat) < 63 {
            vstd::arithmetic::power2::lemma_pow2_strictly_increases(x.shift as nat, 63);
        }
        lemma_pow2_adds(23, 40);
    }
    let ps: i128 = pow2_i128(scale.shift as u32);
    let px: i128 = pow2_i128(x.shift as u32);
    proof {
        assert(-0x2000_0000_0000_0000_0000_0000_0000_0000 <= (x.num as int) * (ps as int)
            <= 0x2000_0000_0000_0000_0000_0000_0000_0000) by (nonlinear_arith)
            requires
                -0x8000_0000_0000_0000 <= (x.num as int) <= 0x7FFF_FFFF_FFFF_FFFF,
                0 < (ps as int) <= 0x100_0000_0000,
        ;
        assert(1 <= (px as int) * (scale.mantissa as int)
            <= 0x10_0000_0000_0000_0000_0000_0000) by (nonlinear_arith)
            requires
                1 <= (px as int) <= 0x8000_0000_0000_0000,
                1 <= (scale.mantissa as int) < 0x100_0000,
        ;
    }
    let num: i128 = (x.num as i128) * ps;
    let den: i128 = px * (scale.mantissa as i128);
    let q: i128 = round_div(num, den);
    let shifted: i128 = if q > 0x1_0000_0000_0000 {
        256
    } else if q < -0x1_0000_0000_0000 {
        -1
    } else {
        q + (zp as i128)
    };
    if shifted < 0 {
        0
    } else if shifted > 255 {
        255
    } else {
        shifted as u8
    }
}

/// Dequantize a byte: the exact value `(v - zp) * scale`, carried as a
/// numerator over the scale's own power-of-two denominator.
pub fn dequantize_value(x: u8, zp: i32, scale: &QuantScale) -> (r: QValue)
    requires
        scale.well_formed(),
    ensures
        r.num as int == spec_dequantize(x as int, zp as int, scale.mantissa as int),
        r.shift == scale.shift,
        r.well_formed(),
{
    let a: i64 = (x as i64) - (zp as i64);
    proof {
        assert(-0x8000_0000_0000_0000 <= (a as int) * (scale.mantissa as int)
            < 0x8000_0000_0000_0000) by (nonlinear_arith)
            requires
                -0x8000_0000 <= (a as int) <= 0x8000_00FF,
                1 <= (scale.mantissa as int) < 0x100_0000,
        ;
    }
    QValue { num: a * (scale.mantissa as i64), shift: scale.shift }
}

/// Dequantizing a byte and quantizing the result gives the byte back, for
/// every byte, every zero point and every well-formed scale: the codec's
/// arithmetic is exact, so the round trip loses nothing.
pub proof fn lemma_quantize_dequantize_round_trip(v: u8, zp: i32, scale: QuantScale)
    requires
        scale.well_formed(),
    ensures
        spec_quantize(
            spec_dequantize(v as int, zp as int, scale.mantissa as int),
            scale.shift as nat,
            zp as int,
            scale.mantissa as int,
            scale.shift as nat,
        ) == v as int,
{
    let a = v as int - zp as int;
    let m = scale.mantissa as int;
    let p = pow2(scale.shift as nat) as int;
    lemma_pow2_pos(scale.shift as nat);
    lemma_mul_is_associative(a, m, p);
    assert(spec_dequantize(v as int, zp as int, m) * p == a * (m * p)) by (nonlinear_arith)
        requires
            spec_dequantize(v as int, zp as int, m) == a * m,
    ;
    assert(m * p == p * m) by (nonlinear_arith);
    assert(1 <= m * p) by (nonlinear_arith)
        requires
            1 <= m,
            1 <= p,
    ;
    lemma_round_rat_exact(a, m * p);
    assert(round_rat(a * (m * p), p * m) == a);
    assert(clamp_u8(a + zp as int) == v as int);
}

/// Dequantization with a positive scale is strictly order-preserving on
/// the stored bytes, which is why an arg-max over raw logit bytes picks
/// the same class as an arg-max over the dequantized logits.
pub proof fn lemma_dequantize_monotone(v1: u8, v2: u8, zp: int, mant: int)
    requires
        1 <= mant,
        v1 < v2,
    ensures
        spec_dequantize(v1 as int, zp, mant) < spec_dequantize(v2 as int, zp, mant),
{
    assert((v1 - zp) * mant < (v2 - zp) * mant) by (nonlinear_arith)
        requires
            1 <= mant,
            v1 < v2,
    ;
}

/// Quantize a whole buffer of exact values under the given scheme.  Only an
/// affine scheme quantizes; a declared absence of quantization and dynamic
/// fixed point, which this crate does not implement, are both refused.
pub fn quantize_data(data: &Vec<QValue>, quant_fmt: &RknnTensorQuantFormat) -> (r: Result<
    Vec<u8>,
    DecodeError,
>)
    requires
        forall|i: int| 0 <= i < data@.len() ==> data@[i].well_formed(),
        quant_fmt.well_formed(),
    ensures
        r is Ok <==> quant_fmt matches RknnTensorQuantFormat::AffineScale(_, _),
        r is Err ==> r == Err::<Vec<u8>, DecodeError>(DecodeError::UnsupportedQuantization),
        r matches Ok(out) ==> {
            &&& quant_fmt matches RknnTensorQuantFormat::AffineScale(zp, s)
            &&& out@.len() == data@.len()
            &&& forall|i: int|
                0 <= i < data@.len() ==> out@[i] as int == spec_quantize(
                    data@[i].num as int,
                    data@[i].shift as nat,
                    zp as int,
                    s.mantissa as int,
                    s.shift as nat,
                )
        },
{
    match quant_fmt {
        RknnTensorQuantFormat::Unquantized => Err(DecodeError::UnsupportedQuantization),
        RknnTensorQuantFormat::DynamicFixedPoint(_) => Err(DecodeError::UnsupportedQuantization),
        RknnTensorQuantFormat::AffineScale(zp, scale) => {
            let mut out: Vec<u8> = Vec::new();
            let mut i: usize = 0;
            while i < data.len()
                invariant
                    i <= data@.len(),
                    out@.len() == i,
                    forall|k: int| 0 <= k < data@.len() ==> data@[k].well_formed(),
                    scale.well_formed(),
                    forall|k: int|
                        0 <= k < i ==> out@[k] as int == spec_quantize(
                            data@[k].num as int,
                            data@[k].shift as nat,
                            *zp as int,
                            scale.mantissa as int,
                            scale.shift as nat,
                        ),
                decreases data@.len() - i,
            {
                let q = quantize_value(&data[i], *zp, scale);
                out.push(q);
                i = i + 1;
            }
            Ok(out)
        },
    }
}

} // verus!
