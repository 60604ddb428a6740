//! Decoding of raw detection-head output buffers into bounding boxes.
//!
//! A detection head hands back one flat quantized buffer per stride,
//! logically shaped `(1, anchors_per_cell * (5 + classes), grid_h * grid_w)`
//! with the channel axis major and the spatial position minor.  For every
//! grid position and anchor the decoder dequantizes the five box fields and
//! the class logits, applies the grid-sensitivity correction to the center,
//! the quadratic anchor correction to the extent, and normalizes by the
//! image size.  All of it is exact integer arithmetic on the binary-rational
//! scale, with a single stated rounding at the end of each coordinate, so
//! the contract pins every emitted detection to the byte it came from.

use vstd::prelude::*;
use vstd::arithmetic::power2::{
    lemma2_to64, lemma2_to64_rest, lemma_pow2_pos, lemma_pow2_strictly_increases, pow2,
};

use crate::error::DecodeError;
use crate::fixed::{fp_round, pow2_i128, round_div_sat, FP_HALF, FP_LIMIT, FP_ONE};
use crate::quant::{spec_dequantize, QuantScale};

verus! {

/// Number of object classes the modeled detection head predicts.
pub const OBJ_CLASS_NUM: usize = 80;

/// Values per box hypothesis: center, extent, objectness, class logits.
pub const PROP_BOX_SIZE: usize = 85;

/// An a-priori box template of a detection head: a width and a height in
/// input pixels.
#[derive(Clone, Copy, Debug, PartialEq, Eq)]
pub struct Anchor {
    /// Template height in pixels.
    pub height: usize,
    /// Template width in pixels.
    pub width: usize,
}

impl Anchor {
    /// Anchors of the modeled heads are small positive pixel extents; the
    /// bound keeps the quadratic size correction inside `i128`.
    pub open spec fn well_formed(&self) -> bool {
        1 <= self.width <= 2048 && 1 <= self.height <= 2048
    }
}

/// One decoded bounding-box hypothesis.  Coordinates are normalized by the
/// image size and stored in the crate's fixed-point format (32 fractional
/// bits): `x` and `y` are the top-left corner, `width` and `height` the
/// extents, and `confidence` the dequantized objectness value with no
/// activation applied.
#[derive(Clone, Copy, Debug, PartialEq, Eq)]
pub struct YoloDetection {
    /// Top-left bounds coordinate in the x-axis, normalized, fixed point.
    pub x: i64,
    /// Top-left bounds coordinate in the y-axis, normalized, fixed point.
    pub y: i64,
    /// Normalized width, fixed point.
    pub width: i64,
    /// Normalized height, fixed point.
    pub height: i64,
    /// Index of the class with the greatest logit, lowest index on ties.
    pub class_index: usize,
    /// Dequantized objectness, fixed point; no activation is applied.
    pub confidence: i64,
}

impl YoloDetection {
    /// Every field the decoder emits is saturated to the coordinate range,
    /// which keeps all products the overlap geometry forms inside `i128`.
    pub open spec fn well_formed(&self) -> bool {
        &&& -(FP_LIMIT as int) <= (self.x as int) <= FP_LIMIT as int
        &&& -(FP_LIMIT as int) <= (self.y as int) <= FP_LIMIT as int
        &&& -(FP_LIMIT as int) <= (self.width as int) <= FP_LIMIT as int
        &&& -(FP_LIMIT as int) <= (self.height as int) <= FP_LIMIT as int
    }

    /// Signed area of the box, exact, with 64 fractional bits.
    pub fn area(&self) -> (r: i128)
        ensures
            r == (self.width as int) * (self.height as int),
    {
        proof {
            assert(-0x4000_0000_0000_0000_0000_0000_0000_0000
                <= (self.width as int) * (self.height as int)
                <= 0x4000_0000_0000_0000_0000_0000_0000_0000) by (nonlinear_arith)
                requires
                    -0x8000_0000_0000_0000 <= (self.width as int) <= 0x8000_0000_0000_0000,
                    -0x8000_0000_0000_0000 <= (self.height as int) <= 0x8000_0000_0000_0000,
            ;
        }
        (self.width as i128) * (self.height as i128)
    }

    /// Grid-sensitivity correction of a center coordinate: `x * 2 + 0.5`.
    ///
    /// The head's activation cannot saturate at exactly 0 or 1, so the
    /// raw `[0, 1]` output is rescaled to `[-0.5, 1.5]` around 0.5.  Exact:
    /// both the doubling and the half are representable in fixed point.
    pub fn grid_sensitivity_adjustment_pos(x: i64) -> (r: i64)
        requires
            -0x2000_0000_0000_0000 <= x <= 0x2000_0000_0000_0000,
        ensures
            r as int == 2 * (x as int) + FP_HALF as int,
    {
        2 * x + FP_HALF
    }

    /// Anchor-relative correction of an extent: `x * x * 4 * anchor`,
    /// rounded once to fixed point and saturated to the coordinate range.
    pub fn grid_sensitivity_adjustment_size(x: i64, anchor_x: usize) -> (r: i64)
        requires
            -(FP_LIMIT as int) <= (x as int) <= FP_LIMIT as int,
            anchor_x <= 2048,
        ensures
            r as int == fp_round(4 * (x as int) * (x as int) * (anchor_x as int), FP_ONE as int),
    {
        proof {
            assert(-0x1_0000_0000_0000 <= 4 * (x as int) <= 0x1_0000_0000_0000);
            assert({
                &&& -0x4000_0000_0000_0000_0000_0000_0000 <= 4 * (x as int) * (x as int)
                    <= 0x4000_0000_0000_0000_0000_0000_0000
                &&& -0x2000_0000_0000_0000_0000_0000_0000_0000 <= 4 * (x as int) * (x as int) * (
                anchor_x as int) <= 0x2000_0000_0000_0000_0000_0000_0000_0000
            }) by (nonlinear_arith)
                requires
                    -0x4000_0000_0000 <= (x as int) <= 0x4000_0000_0000,
                    0 <= (anchor_x as int) <= 2048,
            ;
        }
        let n: i128 = 4 * (x as i128) * (x as i128) * (anchor_x as i128);
        round_div_sat(n, FP_ONE as i128)
    }
}

/// Index of the first maximum of a byte sequence; 0 for sequences of at
/// most one element.
pub open spec fn spec_argmax(s: Seq<u8>) -> int
    decreases s.len(),
{
    if s.len() <= 1 {
        0
    } else {
        let r = spec_argmax(s.drop_last());
        if s.last() > s[r] {
            s.len() - 1
        } else {
            r
        }
    }
}

/// The arg-max really is a first maximum: no element is greater, and every
/// earlier element is strictly smaller.
pub proof fn lemma_argmax_is_first_max(s: Seq<u8>)
    requires
        s.len() >= 1,
    ensures
        0 <= spec_argmax(s) < s.len(),
        forall|i: int| 0 <= i < s.len() ==> #[trigger] s[i] <= s[spec_argmax(s)],
        forall|i: int| 0 <= i < spec_argmax(s) ==> #[trigger] s[i] < s[spec_argmax(s)],
    decreases s.len(),
{
    if s.len() > 1 {
        lemma_argmax_is_first_max(s.drop_last());
        assert(forall|i: int| 0 <= i < s.len() - 1 ==> s[i] == s.drop_last()[i]);
    }
}

/// Index of the first maximum among the elements of `s` from position
/// `start` on, relative to `start`.
pub fn argmax_from(s: &[u8], start: usize) -> (r: usize)
    requires
        start < s@.len(),
    ensures
        r as int == spec_argmax(s@.skip(start as int)),
{
    let ghost tail = s@.skip(start as int);
    let len: usize = s.len();
    let mut best: usize = start;
    let mut j: usize = start + 1;
    while j < len
        invariant
            start < s@.len(),
            len == s@.len(),
            start <= best < j <= s@.len(),
            tail == s@.skip(start as int),
            best - start == spec_argmax(tail.take(j - start)),
        decreases s@.len() - j,
    {
        proof {
            assert(tail.take(j + 1 - start).drop_last() =~= tail.take(j - start));
            assert(tail.take(j + 1 - start).last() == s@[j as int]);
        }
        if s[j] > s[best] {
            best = j;
        }
        j = j + 1;
    }
    proof {
        assert(tail.take(s@.len() - start) =~= tail);
    }
    best - start
}

/// Numerator of a center coordinate over `2^(shift+1)`: the exact
/// dequantized value, doubled, with the grid-sensitivity half added when
/// the correction is requested.
pub open spec fn spec_pos_num(v: u8, zp: int, mant: int, shift: nat, adjust: bool) -> int {
    if adjust {
        4 * spec_dequantize(v as int, zp, mant) + pow2(shift)
    } else {
        2 * spec_dequantize(v as int, zp, mant)
    }
}

/// Numerator of an extent over `2^(2*shift)`: the quadratic anchor
/// correction `x * x * 4 * anchor` when an anchor is given, the plain
/// dequantized value otherwise.
pub open spec fn spec_size_num(v: u8, zp: int, mant: int, shift: nat, anchor: Option<int>) -> int {
    match anchor {
        Some(a) => 4 * spec_dequantize(v as int, zp, mant) * spec_dequantize(v as int, zp, mant)
            * a,
        None => spec_dequantize(v as int, zp, mant) * pow2(shift),
    }
}

/// The detection decoded from one 85-byte hypothesis chunk
/// `[cx, cy, w, h, conf, class logits...]`, stated exactly.
///
/// Centers and extents are corrected on the exact binary rational, the
/// center-minus-half-extent corner is normalized by the image size, and
/// each coordinate is rounded once into fixed point; `2^(2*shift+1)` and
/// `2^(2*shift)` are the common denominators of corner and extent, reduced
/// here by the 32 fractional bits of the result.  The class is the first
/// maximum of the raw logit bytes, which orders exactly as the dequantized
/// logits do, the scale being positive.
pub open spec fn spec_decode_detection(
    raw: Seq<u8>,
    anchor: Option<Anchor>,
    img_w: int,
    img_h: int,
    zp: int,
    mant: int,
    shift: nat,
    adjust: bool,
) -> YoloDetection
    recommends
        raw.len() >= 6,
        16 <= shift <= 40,
        1 <= img_w,
        1 <= img_h,
{
    let aw = match anchor {
        Some(a) => Some(a.width as int),
        None => None,
    };
    let ah = match anchor {
        Some(a) => Some(a.height as int),
        None => None,
    };
    let cxn = spec_pos_num(raw[0], zp, mant, shift, adjust);
    let cyn = spec_pos_num(raw[1], zp, mant, shift, adjust);
    let wn = spec_size_num(raw[2], zp, mant, shift, aw);
    let hn = spec_size_num(raw[3], zp, mant, shift, ah);
    let dp = pow2((2 * shift - 31) as nat) as int;
    let ds = pow2((2 * shift - 32) as nat) as int;
    let pl = pow2(shift) as int;
    YoloDetection {
        x: fp_round(cxn * pl - wn, dp * img_w) as i64,
        y: fp_round(cyn * pl - hn, dp * img_h) as i64,
        width: fp_round(wn, ds * img_w) as i64,
        height: fp_round(hn, ds * img_h) as i64,
        class_index: spec_argmax(raw.skip(5)) as usize,
        confidence: fp_round(spec_dequantize(raw[4] as int, zp, mant) * pow2(32), pl) as i64,
    }
}

/// Exact dequantization of one field into an `i128` numerator, with the
/// bound every later product relies on.
fn dq_field(v: u8, zp: i32, m: i128) -> (r: i128)
    requires
        1 <= m < 0x100_0000,
    ensures
        r == spec_dequantize(v as int, zp as int, m as int),
        -0x80_0001_0000_0000 <= r <= 0x80_0001_0000_0000,
{
    let a: i128 = (v as i128) - (zp as i128);
    proof {
        assert(-0x80_0001_0000_0000 <= (a as int) * (m as int) <= 0x80_0001_0000_0000)
            by (nonlinear_arith)
            requires
                -0x8000_00FF <= (a as int) <= 0x8000_00FF,
                1 <= (m as int) < 0x100_0000,
        ;
    }
    a * m
}

impl YoloDetection {
    /// Decode one hypothesis chunk `[cx, cy, w, h, conf, logits...]`.
    ///
    /// The center correction is applied when `apply_adjustment` is set; the
    /// anchor correction is applied to the extents exactly when an anchor
    /// is supplied.  The result is the exact decode of
    /// `spec_decode_detection`, each coordinate rounded once.
    pub fn from_raw_u8(
        raw: &[u8],
        anchor: Option<&Anchor>,
        img_w: usize,
        img_h: usize,
        zp: i32,
        scale: &QuantScale,
        apply_adjustment: bool,
    ) -> (r: YoloDetection)
        requires
            raw@.len() >= 6,
            scale.well_formed(),
            1 <= img_w <= 65536,
            1 <= img_h <= 65536,
            anchor matches Some(a) ==> a.well_formed(),
        ensures
            r == spec_decode_detection(
                raw@,
                match anchor {
                    Some(a) => Some(*a),
                    None => None,
                },
                img_w as int,
                img_h as int,
                zp as int,
                scale.mantissa as int,
                scale.shift as nat,
                apply_adjustment,
            ),
            r.well_formed(),
    {
        let l: u32 = scale.shift as u32;
        let m: i128 = scale.mantissa as i128;
        proof {
            lemma2_to64();
            lemma2_to64_rest();
            lemma_pow2_pos(l as nat);
            lemma_pow2_pos((2 * l - 31) as nat);
            lemma_pow2_pos((2 * l - 32) as nat);
            if (l as nat) < 40 {
                lemma_pow2_strictly_increases(l as nat, 40);
            }
            if ((2 * l - 31) as nat) < 49 {
                lemma_pow2_strictly_increases((2 * l - 31) as nat, 49);
            }
            if ((2 * l - 32) as nat) < 48 {
                lemma_pow2_strictly_increases((2 * l - 32) as nat, 48);
            }
        }
        let p2l: i128 = pow2_i128(l);
        let p2_32: i128 = pow2_i128(32);
        let dp: i128 = pow2_i128(2 * l - 31);
        let ds: i128 = pow2_i128(2 * l - 32);
        let dq0: i128 = dq_field(raw[0], zp, m);
        let dq1: i128 = dq_field(raw[1], zp, m);
        let dq2: i128 = dq_field(raw[2], zp, m);
        let dq3: i128 = dq_field(raw[3], zp, m);
        let dq4: i128 = dq_field(raw[4], zp, m);
        let cxn: i128 = if apply_adjustment {
            4 * dq0 + p2l
        } else {
            2 * dq0
        };
        let cyn: i128 = if apply_adjustment {
            4 * dq1 + p2l
        } else {
            2 * dq1
        };
        let wn: i128;
        let hn: i128;
        match anchor {
            Some(anc) => {
                proof {
                    lemma_size_num_bound(dq2 as int, anc.width as int);
                    lemma_size_num_bound(dq3 as int, anc.height as int);
                }
                wn = 4 * dq2 * dq2 * (anc.width as i128);
                hn = 4 * dq3 * dq3 * (anc.height as i128);
            },
            None => {
                proof {
                    assert({
                        &&& -0x8_0000_0000_0000_0000_0000_0000 <= (dq2 as int) * (p2l as int)
                            <= 0x8_0000_0000_0000_0000_0000_0000
                        &&& -0x8_0000_0000_0000_0000_0000_0000 <= (dq3 as int) * (p2l as int)
                            <= 0x8_0000_0000_0000_0000_0000_0000
                    }) by (nonlinear_arith)
                        requires
                            -0x80_0001_0000_0000 <= (dq2 as int) <= 0x80_0001_0000_0000,
                            -0x80_0001_0000_0000 <= (dq3 as int) <= 0x80_0001_0000_0000,
                            1 <= (p2l as int) <= 0x100_0000_0000,
                    ;
                }
                wn = dq2 * p2l;
                hn = dq3 * p2l;
            },
        }
        proof {
            assert({
                &&& -0x400_0000_0000_0000_0000_0000_0000 <= (cxn as int) * (p2l as int)
                    <= 0x400_0000_0000_0000_0000_0000_0000
                &&& -0x400_0000_0000_0000_0000_0000_0000 <= (cyn as int) * (p2l as int)
                    <= 0x400_0000_0000_0000_0000_0000_0000
            }) by (nonlinear_arith)
                requires
                    -0x400_0104_0000_0000 <= (cxn as int) <= 0x400_0104_0000_0000,
                    -0x400_0104_0000_0000 <= (cyn as int) <= 0x400_0104_0000_0000,
                    1 <= (p2l as int) <= 0x100_0000_0000,
            ;
            assert({
                &&& 1 <= (dp as int) * (img_w as int) <= 0x2_0000_0000_0000_0000
                &&& 1 <= (dp as int) * (img_h as int) <= 0x2_0000_0000_0000_0000
                &&& 1 <= (ds as int) * (img_w as int) <= 0x1_0000_0000_0000_0000
                &&& 1 <= (ds as int) * (img_h as int) <= 0x1_0000_0000_0000_0000
            }) by (nonlinear_arith)
                requires
                    1 <= (dp as int) <= 0x2_0000_0000_0000,
                    1 <= (ds as int) <= 0x1_0000_0000_0000,
                    1 <= (img_w as int) <= 65536,
                    1 <= (img_h as int) <= 65536,
            ;
            assert(-0x80_0001_0000_0000_0000_0000 <= (dq4 as int) * (p2_32 as int)
                <= 0x80_0001_0000_0000_0000_0000) by (nonlinear_arith)
                requires
                    -0x80_0001_0000_0000 <= (dq4 as int) <= 0x80_0001_0000_0000,
                    p2_32 == 0x1_0000_0000,
            ;
        }
        let den_pw: i128 = dp * (img_w as i128);
        let den_ph: i128 = dp * (img_h as i128);
        let den_sw: i128 = ds * (img_w as i128);
        let den_sh: i128 = ds * (img_h as i128);
        let x = round_div_sat(cxn * p2l - wn, den_pw);
        let y = round_div_sat(cyn * p2l - hn, den_ph);
        let width = round_div_sat(wn, den_sw);
        let height = round_div_sat(hn, den_sh);
        let confidence = round_div_sat(dq4 * p2_32, p2l);
        let class_index = argmax_from(raw, 5);
        YoloDetection { x, y, width, height, class_index, confidence }
    }
}

/// Bound of the quadratic anchor correction: with a dequantized field and
/// an anchor in range, `4 * d * d * a` stays well inside `i128`.
proof fn lemma_size_num_bound(d: int, a: int) by (nonlinear_arith)
    requires
        -0x80_0001_0000_0000 <= d <= 0x80_0001_0000_0000,
        0 <= a <= 2048,
    ensures
        -0x400_0000_0000_0000_0000_0000_0000 <= 4 * d <= 0x400_0000_0000_0000_0000_0000_0000,
        -0x2_0001_0000_8000_0000_0000_0000_0000 <= 4 * d * d
            <= 0x2_0001_0000_8000_0000_0000_0000_0000,
        -0x1000_0000_0000_0000_0000_0000_0000_0000 <= 4 * d * d * a
            <= 0x1000_0000_0000_0000_0000_0000_0000_0000,
{
}


/// The per-position column of a channel-major buffer: element `c` of the
/// column at grid position `g` is `buf[c * grid_len + g]`, the value of
/// channel `c` at that position.
pub fn column_at(buf: &Vec<u8>, channels: usize, grid_len: usize, g: usize) -> (r: Vec<u8>)
    requires
        g < grid_len,
        buf@.len() == (channels as int) * (grid_len as int),
    ensures
        r@.len() == channels,
        forall|c: int| 0 <= c < channels ==> #[trigger] r@[c] == buf@[c * (grid_len as int) + g],
{
    let buf_len: usize = buf.len();
    let mut col: Vec<u8> = Vec::new();
    let mut c: usize = 0;
    while c < channels
        invariant
            c <= channels,
            g < grid_len,
            buf_len == buf@.len(),
            buf@.len() == (channels as int) * (grid_len as int),
            col@.len() == c,
            forall|j: int| 0 <= j < c ==> #[trigger] col@[j] == buf@[j * (grid_len as int) + g],
        decreases channels - c,
    {
        proof {
            assert((c as int) * (grid_len as int) + g < (channels as int) * (grid_len as int))
                by (nonlinear_arith)
                requires
                    0 <= (c as int) < channels as int,
                    0 <= (g as int) < grid_len as int,
            ;
        }
        let idx: usize = c * grid_len + g;
        col.push(buf[idx]);
        c = c + 1;
    }
    col
}

/// The hypothesis chunk of anchor `a` at grid position `g`: the 85
/// channel bytes of that anchor gathered across the channel-major buffer,
/// channel `c` living at offset `(a * 85 + c) * grid_len + g`.
pub open spec fn spec_column_chunk(buf: Seq<u8>, grid_len: int, a: int, g: int) -> Seq<u8> {
    Seq::new(85, |c: int| buf[(a * 85 + c) * grid_len + g])
}

/// All detections of one head, as a function of the views alone: entry
/// `g * n + a` is the decode of the chunk of anchor `a` at grid position
/// `g`, where `n` is the anchor count (1 without anchors) and the grid
/// has `grid_x * grid_y` positions.
pub open spec fn spec_head_detections(
    buf: Seq<u8>,
    anchors: Option<Seq<Anchor>>,
    grid_x: int,
    grid_y: int,
    zp: int,
    mant: int,
    shift: nat,
    img_w: int,
    img_h: int,
) -> Seq<YoloDetection> {
    let n = match anchors {
        Some(v) => v.len() as int,
        None => 1,
    };
    let g_len = grid_x * grid_y;
    Seq::new(
        (g_len * n) as nat,
        |i: int|
            spec_decode_detection(
                spec_column_chunk(buf, g_len, i % n, i / n),
                match anchors {
                    Some(v) => Some(v[i % n]),
                    None => None,
                },
                img_w,
                img_h,
                zp,
                mant,
                shift,
                true,
            ),
    )
}

/// Decode a whole detection-head buffer.
///
/// The buffer is read as shape `(1, 85 * n_anchors, grid_x * grid_y)`,
/// channel major; `n_anchors` is the anchor count when anchors are given
/// and 1 otherwise.  Iteration is grid position outer, anchor inner, so
/// hypothesis `(g, a)` lands at index `g * n_anchors + a`.  The call fails
/// with `MalformedOutputShape` exactly when anchors are supplied in a
/// number other than 3, or when the buffer length is not
/// `85 * n_anchors * grid_x * grid_y`; otherwise every emitted detection
/// is the exact decode of its chunk, with the center correction applied.
pub fn process_result(
    out_buffer: Vec<u8>,
    img_w: usize,
    img_h: usize,
    anchors: Option<Vec<Anchor>>,
    grid_x: usize,
    grid_y: usize,
    zp: i32,
    scale: QuantScale,
) -> (r: Result<Vec<YoloDetection>, DecodeError>)
    requires
        scale.well_formed(),
        1 <= img_w <= 65536,
        1 <= img_h <= 65536,
        anchors matches Some(v) ==> forall|i: int|
            0 <= i < v@.len() ==> (#[trigger] v@[i]).well_formed(),
    ensures
        ({
            let n_anchors: int = match anchors {
                Some(v) => v@.len() as int,
                None => 1,
            };
            let bad_anchors = anchors matches Some(v) && v@.len() != 3;
            let bad_shape = out_buffer@.len() != 85 * n_anchors * (grid_x as int) * (
            grid_y as int);
            &&& r is Err <==> (bad_anchors || bad_shape)
            &&& r is Err ==> r == Err::<Vec<YoloDetection>, DecodeError>(
                DecodeError::MalformedOutputShape,
            )
            &&& r matches Ok(dets) ==> dets@ == spec_head_detections(
                out_buffer@,
                match anchors {
                    Some(v) => Some(v@),
                    None => None,
                },
                grid_x as int,
                grid_y as int,
                zp as int,
                scale.mantissa as int,
                scale.shift as nat,
                img_w as int,
                img_h as int,
            )
            &&& r matches Ok(dets) ==> {
                let g_len = (grid_x as int) * (grid_y as int);
                &&& dets@.len() == g_len * n_anchors
                &&& forall|g: int, a: int|
                    0 <= g < g_len && 0 <= a < n_anchors
                        ==> #[trigger] dets@[g * n_anchors + a] == spec_decode_detection(
                        spec_column_chunk(out_buffer@, g_len, a, g),
                        match anchors {
                            Some(v) => Some(v@[a]),
                            None => None,
                        },
                        img_w as int,
                        img_h as int,
                        zp as int,
                        scale.mantissa as int,
                        scale.shift as nat,
                        true,
                    )
            }
        }),
{
    let buf_len: usize = out_buffer.len();
    let n_anchors: usize = match &anchors {
        Some(v) => {
            if v.len() != 3 {
                return Err(DecodeError::MalformedOutputShape);
            }
            v.len()
        },
        None => 1,
    };
    let channels: usize = 85 * n_anchors;
    let grid_len: usize = match grid_x.checked_mul(grid_y) {
        Some(g) => g,
        None => {
            proof {
                assert(85 * (n_anchors as int) * (grid_x as int) * (grid_y as int)
                    > out_buffer@.len()) by (nonlinear_arith)
                    requires
                        (grid_x as int) * (grid_y as int) > usize::MAX,
                        out_buffer@.len() <= usize::MAX,
                        1 <= n_anchors as int,
                ;
            }
            return Err(DecodeError::MalformedOutputShape);
        },
    };
    let total: usize = match channels.checked_mul(grid_len) {
        Some(t) => t,
        None => {
            proof {
                assert(85 * (n_anchors as int) * (grid_x as int) * (grid_y as int)
                    > out_buffer@.len()) by (nonlinear_arith)
                    requires
                        (channels as int) * (grid_len as int) > usize::MAX,
                        grid_len == (grid_x as int) * (grid_y as int),
                        channels == 85 * (n_anchors as int),
                        out_buffer@.len() <= usize::MAX,
                ;
            }
            return Err(DecodeError::MalformedOutputShape);
        },
    };
    proof {
        assert(85 * (n_anchors as int) * (grid_x as int) * (grid_y as int) == (channels as int)
            * (grid_len as int)) by (nonlinear_arith)
            requires
                grid_len == (grid_x as int) * (grid_y as int),
                channels == 85 * (n_anchors as int),
        ;
    }
    if total != out_buffer.len() {
        return Err(DecodeError::MalformedOutputShape);
    }
    let mut dets: Vec<YoloDetection> = Vec::new();
    let mut g: usize = 0;
    while g < grid_len
        invariant
            g <= grid_len,
            n_anchors <= 3,
            n_anchors as int == match anchors {
                Some(v) => v@.len() as int,
                None => 1int,
            },
            channels == 85 * n_anchors,
            total as int == (channels as int) * (grid_len as int),
            total == out_buffer@.len(),
            scale.well_formed(),
            1 <= img_w <= 65536,
            1 <= img_h <= 65536,
            anchors matches Some(v) ==> forall|i: int|
                0 <= i < v@.len() ==> (#[trigger] v@[i]).well_formed(),
            dets@.len() == (g as int) * (n_anchors as int),
            forall|gg: int, aa: int|
                0 <= gg < g && 0 <= aa < n_anchors
                    ==> #[trigger] dets@[gg * (n_anchors as int) + aa] == spec_decode_detection(
                    spec_column_chunk(out_buffer@, grid_len as int, aa, gg),
                    match anchors {
                        Some(v) => Some(v@[aa]),
                        None => None,
                    },
                    img_w as int,
                    img_h as int,
                    zp as int,
                    scale.mantissa as int,
                    scale.shift as nat,
                    true,
                ),
        decreases grid_len - g,
    {
        let ghost dets_len_at_row = dets@.len();
        let mut a: usize = 0;
        while a < n_anchors
            invariant
                g < grid_len,
                a <= n_anchors,
                n_anchors <= 3,
                n_anchors as int == match anchors {
                    Some(v) => v@.len() as int,
                    None => 1int,
                },
                channels == 85 * n_anchors,
                total as int == (channels as int) * (grid_len as int),
                total == out_buffer@.len(),
                scale.well_formed(),
                1 <= img_w <= 65536,
                1 <= img_h <= 65536,
                anchors matches Some(v) ==> forall|i: int|
                    0 <= i < v@.len() ==> (#[trigger] v@[i]).well_formed(),
                dets@.len() == (g as int) * (n_anchors as int) + a,
                forall|gg: int, aa: int|
                    0 <= gg < g && 0 <= aa < n_anchors
                        ==> #[trigger] dets@[gg * (n_anchors as int) + aa]
                        == spec_decode_detection(
                        spec_column_chunk(out_buffer@, grid_len as int, aa, gg),
                        match anchors {
                            Some(v) => Some(v@[aa]),
                            None => None,
                        },
                        img_w as int,
                        img_h as int,
                        zp as int,
                        scale.mantissa as int,
                        scale.shift as nat,
                        true,
                    ),
                forall|aa: int|
                    0 <= aa < a ==> #[trigger] dets@[(g as int) * (n_anchors as int) + aa]
                        == spec_decode_detection(
                        spec_column_chunk(out_buffer@, grid_len as int, aa, g as int),
                        match anchors {
                            Some(v) => Some(v@[aa]),
                            None => None,
                        },
                        img_w as int,
                        img_h as int,
                        zp as int,
                        scale.mantissa as int,
                        scale.shift as nat,
                        true,
                    ),
            decreases n_anchors - a,
        {
            let mut chunk: Vec<u8> = Vec::new();
            let mut c: usize = 0;
            while c < 85
                invariant
                    c <= 85,
                    a < n_anchors,
                    n_anchors <= 3,
                    g < grid_len,
                    channels == 85 * n_anchors,
                    total as int == (channels as int) * (grid_len as int),
                    total == out_buffer@.len(),
                    chunk@.len() == c,
                    forall|j: int|
                        0 <= j < c ==> #[trigger] chunk@[j] == out_buffer@[((a as int) * 85 + j)
                            * (grid_len as int) + g],
                decreases 85 - c,
            {
                proof {
                    assert(((a as int) * 85 + c) * (grid_len as int) + g < total)
                        by (nonlinear_arith)
                        requires
                            (a as int) * 85 + c <= (channels as int) - 1,
                            0 <= (g as int) < grid_len as int,
                            total as int == (channels as int) * (grid_len as int),
                            1 <= channels,
                    ;
                }
                let idx: usize = (a * 85 + c) * grid_len + g;
                chunk.push(out_buffer[idx]);
                c = c + 1;
            }
            proof {
                assert(chunk@ =~= spec_column_chunk(
                    out_buffer@,
                    grid_len as int,
                    a as int,
                    g as int,
                ));
            }
            let anchor_ref: Option<&Anchor> = match &anchors {
                Some(v) => Some(&v[a]),
                None => None,
            };
            let det = YoloDetection::from_raw_u8(
                chunk.as_slice(),
                anchor_ref,
                img_w,
                img_h,
                zp,
                &scale,
                true,
            );
            dets.push(det);
            proof {
                assert forall|gg: int, aa: int|
                    0 <= gg < g && 0 <= aa < n_anchors implies #[trigger] (gg * (n_anchors as int)
                    + aa) < (g as int) * (n_anchors as int) + a by {
                    assert(gg * (n_anchors as int) + aa < (g as int) * (n_anchors as int))
                        by (nonlinear_arith)
                        requires
                            0 <= gg <= (g as int) - 1,
                            0 <= aa < n_anchors as int,
                    ;
                }
            }
            a = a + 1;
        }
        g = g + 1;
        proof {
            assert((g as int) * (n_anchors as int) == ((g as int) - 1) * (n_anchors as int)
                + (n_anchors as int)) by (nonlinear_arith);
        }
    }
    proof {
        assert(dets@.len() == (grid_x as int) * (grid_y as int) * (n_anchors as int))
            by (nonlinear_arith)
            requires
                dets@.len() == (grid_len as int) * (n_anchors as int),
                grid_len as int == (grid_x as int) * (grid_y as int),
        ;
        let n = n_anchors as int;
        let g_len = grid_len as int;
        let spec_dets = spec_head_detections(
            out_buffer@,
            match anchors {
                Some(v) => Some(v@),
                None => None,
            },
            grid_x as int,
            grid_y as int,
            zp as int,
            scale.mantissa as int,
            scale.shift as nat,
            img_w as int,
            img_h as int,
        );
        assert forall|i: int| 0 <= i < g_len * n implies dets@[i] == spec_dets[i] by {
            vstd::arithmetic::div_mod::lemma_fundamental_div_mod(i, n);
            let g = i / n;
            let a = i % n;
            assert(0 <= a < n);
            assert(0 <= g < g_len) by (nonlinear_arith)
                requires
                    i == n * (i / n) + i % n,
                    g == i / n,
                    0 <= i % n < n,
                    0 <= i < g_len * n,
                    n >= 1,
            ;
            assert(g * n + a == i) by (nonlinear_arith)
                requires
                    i == n * (i / n) + i % n,
                    g == i / n,
                    a == i % n,
            ;
            assert(dets@[g * n + a] == spec_dets[g * n + a]);
        }
        assert(dets@ =~= spec_dets);
    }
    Ok(dets)
}

} // verus!
