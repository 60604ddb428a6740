//! Overlap geometry and greedy duplicate suppression.
//!
//! The overlap measure is the one the decode pipeline has always used: the
//! intersection span along each axis is approximated by the smaller of the
//! two extents — not by true interval overlap — clamped at zero before
//! multiplying, and the ratio is intersection over union.  The division is
//! never performed: `iou` returns the exact numerator and denominator, and
//! comparisons against a threshold cross-multiply, so every statement here
//! is exact integer arithmetic.
//!
//! Suppression is the single forward pass of the pipeline, not a
//! confidence-sorted scheme: detection `i` is kept exactly when every
//! detection after it in the input order overlaps it less than the
//! threshold.  Input order is significant and preserved.

use vstd::prelude::*;

use crate::fixed::FP_ONE;
use crate::yolo::YoloDetection;

verus! {

/// Signed area of a box, in units of `2^-64`.
pub open spec fn spec_area(a: YoloDetection) -> int {
    (a.width as int) * (a.height as int)
}

/// Approximate intersection area: the smaller width times the smaller
/// height, each clamped at zero before multiplying.
pub open spec fn spec_inter(a: YoloDetection, b: YoloDetection) -> int {
    let iw = if a.width < b.width {
        a.width as int
    } else {
        b.width as int
    };
    let ih = if a.height < b.height {
        a.height as int
    } else {
        b.height as int
    };
    (if iw > 0 {
        iw
    } else {
        0
    }) * (if ih > 0 {
        ih
    } else {
        0
    })
}

/// Union area under the approximate intersection: `A + B - I`.
pub open spec fn spec_union(a: YoloDetection, b: YoloDetection) -> int {
    spec_area(a) + spec_area(b) - spec_inter(a, b)
}

/// The overlap ratio of two boxes, held as an exact fraction
/// `num / den` in units of `2^-64` each; the division is left to the
/// caller, who usually only compares.
#[derive(Clone, Copy, Debug, PartialEq, Eq)]
pub struct IouRatio {
    /// Intersection area.
    pub num: i128,
    /// Union area; zero for two boxes of opposite degenerate areas.
    pub den: i128,
}

/// Intersection over union of two bounding boxes, as an exact fraction.
pub fn iou(a: &YoloDetection, b: &YoloDetection) -> (r: IouRatio)
    requires
        a.well_formed(),
        b.well_formed(),
    ensures
        r.num == spec_inter(*a, *b),
        r.den == spec_union(*a, *b),
{
    proof {
        lemma_geometry_bounds(*a, *b);
    }
    let iw: i64 = if a.width < b.width {
        a.width
    } else {
        b.width
    };
    let ih: i64 = if a.height < b.height {
        a.height
    } else {
        b.height
    };
    let iwc: i128 = if iw > 0 {
        iw as i128
    } else {
        0
    };
    let ihc: i128 = if ih > 0 {
        ih as i128
    } else {
        0
    };
    let inter: i128 = iwc * ihc;
    let union_area: i128 = a.area() + b.area() - inter;
    IouRatio { num: inter, den: union_area }
}

/// All products the geometry forms stay well inside `i128` for boxes in
/// the coordinate range.
proof fn lemma_geometry_bounds(a: YoloDetection, b: YoloDetection) by (nonlinear_arith)
    requires
        a.well_formed(),
        b.well_formed(),
    ensures
        -0x1000_0000_0000_0000_0000_0000 <= spec_area(a) <= 0x1000_0000_0000_0000_0000_0000,
        -0x1000_0000_0000_0000_0000_0000 <= spec_area(b) <= 0x1000_0000_0000_0000_0000_0000,
        0 <= spec_inter(a, b) <= 0x1000_0000_0000_0000_0000_0000,
        -0x3000_0000_0000_0000_0000_0000 <= spec_union(a, b) <= 0x3000_0000_0000_0000_0000_0000,
{
}

/// The overlap measure does not depend on the order of its arguments.
pub proof fn lemma_iou_symmetric(a: YoloDetection, b: YoloDetection)
    ensures
        spec_inter(a, b) == spec_inter(b, a),
        spec_union(a, b) == spec_union(b, a),
{
}

/// A box of positive extents overlaps itself completely: the fraction is
/// `area / area`, the real value 1.
pub proof fn lemma_iou_self(a: YoloDetection)
    requires
        a.width > 0,
        a.height > 0,
    ensures
        spec_inter(a, a) == spec_union(a, a),
        spec_union(a, a) > 0,
{
    assert(spec_inter(a, a) == (a.width as int) * (a.height as int));
    assert((a.width as int) * (a.height as int) > 0) by (nonlinear_arith)
        requires
            a.width as int > 0,
            a.height as int > 0,
    ;
}

/// Whether the overlap of `a` and `b` is strictly below the fixed-point
/// threshold `t / 2^32`, read as the real comparison `I / U < t / 2^32`.
/// A zero union — the value `0 / 0` — compares as not-below, which is how
/// the pipeline has always treated it.
pub open spec fn spec_iou_lt(a: YoloDetection, b: YoloDetection, t: int) -> bool {
    let i = spec_inter(a, b);
    let u = spec_union(a, b);
    if u > 0 {
        i * 0x1_0000_0000 < t * u
    } else if u < 0 {
        i * 0x1_0000_0000 > t * u
    } else {
        false
    }
}

/// Compare the overlap of two boxes against a fixed-point threshold by
/// cross-multiplication; no division, no rounding.
pub fn iou_less_than(a: &YoloDetection, b: &YoloDetection, max_iou: i64) -> (r: bool)
    requires
        a.well_formed(),
        b.well_formed(),
        0 <= max_iou <= FP_ONE,
    ensures
        r == spec_iou_lt(*a, *b, max_iou as int),
{
    proof {
        lemma_geometry_bounds(*a, *b);
    }
    let f = iou(a, b);
    proof {
        assert({
            &&& -0x1000_0000_0000_0000_0000_0000_0000_0000 <= (f.num as int) * 0x1_0000_0000
                <= 0x1000_0000_0000_0000_0000_0000_0000_0000
            &&& -0x3000_0000_0000_0000_0000_0000_0000_0000 <= (max_iou as int) * (f.den as int)
                <= 0x3000_0000_0000_0000_0000_0000_0000_0000
        }) by (nonlinear_arith)
            requires
                -0x1000_0000_0000_0000_0000_0000 <= (f.num as int)
                    <= 0x1000_0000_0000_0000_0000_0000,
                -0x3000_0000_0000_0000_0000_0000 <= (f.den as int)
                    <= 0x3000_0000_0000_0000_0000_0000,
                0 <= (max_iou as int) <= 0x1_0000_0000,
        ;
    }
    if f.den > 0 {
        f.num * 0x1_0000_0000 < (max_iou as i128) * f.den
    } else if f.den < 0 {
        f.num * 0x1_0000_0000 > (max_iou as i128) * f.den
    } else {
        false
    }
}

/// Detection `i` of `s` survives suppression at threshold `t`: every
/// detection after it overlaps it strictly less than the threshold.
pub open spec fn spec_keeps(s: Seq<YoloDetection>, i: int, t: int) -> bool {
    forall|j: int| i < j < s.len() ==> spec_iou_lt(s[i], #[trigger] s[j], t)
}

/// The suffix of the suppression result from position `i` on: each kept
/// detection in input order.
pub open spec fn spec_suppress_from(s: Seq<YoloDetection>, i: int, t: int) -> Seq<YoloDetection>
    decreases s.len() - i,
    when 0 <= i
{
    if i >= s.len() {
        Seq::empty()
    } else if spec_keeps(s, i, t) {
        seq![s[i]] + spec_suppress_from(s, i + 1, t)
    } else {
        spec_suppress_from(s, i + 1, t)
    }
}

/// The whole suppression result: the detections kept by `spec_keeps`, in
/// input order.
pub open spec fn spec_suppress(s: Seq<YoloDetection>, t: int) -> Seq<YoloDetection> {
    spec_suppress_from(s, 0, t)
}

/// Greedy forward-looking duplicate suppression.
///
/// Retains detection `i` exactly when every detection after it in the
/// input order overlaps it strictly less than `max_iou`; order-dependent
/// on purpose, and the input order is preserved.  Note the pass looks at
/// every later detection, including ones that are themselves dropped.
pub fn suppress(detections: &Vec<YoloDetection>, max_iou: i64) -> (r: Vec<YoloDetection>)
    requires
        forall|i: int| 0 <= i < detections@.len() ==> (#[trigger] detections@[i]).well_formed(),
        0 <= max_iou <= FP_ONE,
    ensures
        r@ == spec_suppress(detections@, max_iou as int),
{
    let ghost s = detections@;
    let ghost t = max_iou as int;
    let len: usize = detections.len();
    let mut out: Vec<YoloDetection> = Vec::new();
    let mut i: usize = 0;
    while i < len
        invariant
            i <= len,
            len == s.len(),
            s == detections@,
            t == max_iou as int,
            0 <= max_iou <= FP_ONE,
            forall|k: int| 0 <= k < s.len() ==> (#[trigger] s[k]).well_formed(),
            out@ + spec_suppress_from(s, i as int, t) == spec_suppress_from(s, 0, t),
        decreases len - i,
    {
        let mut keep: bool = true;
        let mut j: usize = i + 1;
        while j < len
            invariant
                i < len,
                i < j <= len,
                len == s.len(),
                s == detections@,
                t == max_iou as int,
                0 <= max_iou <= FP_ONE,
                forall|k: int| 0 <= k < s.len() ==> (#[trigger] s[k]).well_formed(),
                keep == forall|k: int| i < k < j ==> spec_iou_lt(s[i as int], #[trigger] s[k], t),
            decreases len - j,
        {
            let below = iou_less_than(&detections[i], &detections[j], max_iou);
            if !below {
                keep = false;
            }
            j = j + 1;
        }
        proof {
            assert(keep == spec_keeps(s, i as int, t));
        }
        let ghost pre = out@;
        if keep {
            out.push(detections[i]);
        }
        proof {
            if keep {
                assert(out@ =~= pre + seq![s[i as int]]);
                assert((pre + seq![s[i as int]]) + spec_suppress_from(s, i as int + 1, t)
                    =~= pre + (seq![s[i as int]] + spec_suppress_from(s, i as int + 1, t)));
            }
        }
        i = i + 1;
    }
    proof {
        assert(out@ + spec_suppress_from(s, len as int, t) =~= out@);
    }
    out
}

/// The filtered subsequence of detections whose confidence is strictly
/// above the threshold, in input order.
pub open spec fn spec_filter_confidence(s: Seq<YoloDetection>, t: int) -> Seq<YoloDetection>
    decreases s.len(),
{
    if s.len() == 0 {
        Seq::empty()
    } else {
        let rest = spec_filter_confidence(s.drop_last(), t);
        if s.last().confidence > t {
            rest.push(s.last())
        } else {
            rest
        }
    }
}

/// Keep the detections whose confidence is strictly greater than the
/// fixed-point threshold, preserving input order.
pub fn filter_by_confidence(detections: &Vec<YoloDetection>, threshold: i64) -> (r: Vec<
    YoloDetection,
>)
    ensures
        r@ == spec_filter_confidence(detections@, threshold as int),
{
    let ghost s = detections@;
    let len: usize = detections.len();
    let mut out: Vec<YoloDetection> = Vec::new();
    let mut i: usize = 0;
    while i < len
        invariant
            i <= len,
            len == s.len(),
            s == detections@,
            out@ == spec_filter_confidence(s.take(i as int), threshold as int),
        decreases len - i,
    {
        proof {
            assert(s.take(i as int + 1).drop_last() =~= s.take(i as int));
            assert(s.take(i as int + 1).last() == s[i as int]);
        }
        if detections[i].confidence > threshold {
            out.push(detections[i]);
        }
        i = i + 1;
    }
    proof {
        assert(s.take(len as int) =~= s);
    }
    out
}

} // verus!
