//! The whole post-processing chain in one verified step: decode every
//! detection head, concatenate in head order, drop the detections below
//! the confidence threshold, and suppress duplicates — exactly the
//! composition `suppress(filter(concat(decode(head_0) .. decode(head_n))))`
//! that the contract states.

use vstd::prelude::*;

use crate::error::DecodeError;
use crate::fixed::FP_ONE;
use crate::nms::{
    filter_by_confidence, spec_filter_confidence, spec_suppress, suppress,
};
use crate::quant::QuantScale;
use crate::yolo::{
    process_result, spec_column_chunk, spec_decode_detection, spec_head_detections, Anchor,
    YoloDetection,
};

verus! {

/// One raw detection-head output with everything its decode needs: the
/// flat buffer, the head's anchors, its grid resolution, and the head's
/// quantization parameters.
pub struct DetectionHead {
    /// The head's flat quantized output buffer, channel major.
    pub buffer: Vec<u8>,
    /// The head's anchor templates, or none for an anchor-free head.
    pub anchors: Option<Vec<Anchor>>,
    /// Grid width.
    pub grid_x: usize,
    /// Grid height.
    pub grid_y: usize,
    /// Zero point of the head's affine quantization.
    pub zp: i32,
    /// Scale of the head's affine quantization.
    pub scale: QuantScale,
}

impl DetectionHead {
    /// The head's parameters are in the decoder's range.
    pub open spec fn well_formed(&self) -> bool {
        &&& self.scale.well_formed()
        &&& self.anchors matches Some(v) ==> forall|i: int|
            0 <= i < v@.len() ==> (#[trigger] v@[i]).well_formed()
    }

    /// Hypotheses per grid cell: the anchor count, or 1 without anchors.
    pub open spec fn spec_n_anchors(&self) -> int {
        match self.anchors {
            Some(v) => v@.len() as int,
            None => 1,
        }
    }

    /// Grid positions of the head.
    pub open spec fn spec_grid_len(&self) -> int {
        (self.grid_x as int) * (self.grid_y as int)
    }

    /// The shape constraint the decoder enforces: three anchors when any
    /// are supplied, and a buffer of exactly one byte per channel and
    /// grid position.
    pub open spec fn spec_shape_ok(&self) -> bool {
        &&& (self.anchors matches Some(v) ==> v@.len() == 3)
        &&& self.buffer@.len() == 85 * self.spec_n_anchors() * (self.grid_x as int) * (
        self.grid_y as int)
    }

    /// Every detection this head decodes to, in grid-position-major,
    /// anchor-minor order: entry `g * n + a` is the decode of the chunk
    /// of anchor `a` at position `g`.
    pub open spec fn spec_detections(&self, img_w: int, img_h: int) -> Seq<YoloDetection> {
        spec_head_detections(
            self.buffer@,
            match self.anchors {
                Some(v) => Some(v@),
                None => None,
            },
            self.grid_x as int,
            self.grid_y as int,
            self.zp as int,
            self.scale.mantissa as int,
            self.scale.shift as nat,
            img_w,
            img_h,
        )
    }
}

/// The concatenation of every head's decoded detections, in head order.
pub open spec fn spec_all_head_detections(
    heads: Seq<DetectionHead>,
    img_w: int,
    img_h: int,
) -> Seq<YoloDetection>
    decreases heads.len(),
{
    if heads.len() == 0 {
        Seq::empty()
    } else {
        spec_all_head_detections(heads.drop_last(), img_w, img_h) + heads.last().spec_detections(
            img_w,
            img_h,
        )
    }
}

/// Every decoded detection is saturated into the coordinate range.
proof fn lemma_decoded_well_formed(
    raw: Seq<u8>,
    anchor: Option<Anchor>,
    img_w: int,
    img_h: int,
    zp: int,
    mant: int,
    shift: nat,
    adjust: bool,
)
    ensures
        spec_decode_detection(raw, anchor, img_w, img_h, zp, mant, shift, adjust).well_formed(),
{
}

/// Confidence filtering keeps only elements of its input, so it preserves
/// any property all of them have; here, well-formedness.
proof fn lemma_filter_confidence_well_formed(s: Seq<YoloDetection>, t: int)
    requires
        forall|i: int| 0 <= i < s.len() ==> (#[trigger] s[i]).well_formed(),
    ensures
        forall|i: int|
            0 <= i < spec_filter_confidence(s, t).len() ==> (#[trigger] spec_filter_confidence(
                s,
                t,
            )[i]).well_formed(),
    decreases s.len(),
{
    if s.len() > 0 {
        lemma_filter_confidence_well_formed(s.drop_last(), t);
        let rest = spec_filter_confidence(s.drop_last(), t);
        let f = spec_filter_confidence(s, t);
        assert(forall|i: int| 0 <= i < s.len() - 1 ==> s.drop_last()[i] == s[i]);
        assert forall|i: int| 0 <= i < f.len() implies (#[trigger] f[i]).well_formed() by {
            if s.last().confidence > t {
                assert(f == rest.push(s.last()));
                if i < rest.len() {
                    assert(f[i] == rest[i]);
                } else {
                    assert(f[i] == s.last());
                    assert(s.last() == s[s.len() - 1]);
                }
            } else {
                assert(f == rest);
            }
        }
    }
}

/// Decode, filter and suppress in one call.
///
/// Fails with `MalformedOutputShape` exactly when some head's anchors or
/// buffer size contradict its declared shape; otherwise the result is the
/// suppression of the confidence-filtered concatenation of every head's
/// decoded detections, in head order.
pub fn post_process(
    heads: Vec<DetectionHead>,
    img_w: usize,
    img_h: usize,
    min_confidence: i64,
    max_iou: i64,
) -> (r: Result<Vec<YoloDetection>, DecodeError>)
    requires
        1 <= img_w <= 65536,
        1 <= img_h <= 65536,
        0 <= max_iou <= FP_ONE,
        forall|i: int| 0 <= i < heads@.len() ==> (#[trigger] heads@[i]).well_formed(),
    ensures
        r is Ok <==> (forall|i: int|
            0 <= i < heads@.len() ==> (#[trigger] heads@[i]).spec_shape_ok()),
        r is Err ==> r == Err::<Vec<YoloDetection>, DecodeError>(DecodeError::MalformedOutputShape),
        r matches Ok(d) ==> d@ == spec_suppress(
            spec_filter_confidence(
                spec_all_head_detections(heads@, img_w as int, img_h as int),
                min_confidence as int,
            ),
            max_iou as int,
        ),
{
    let n_heads = heads.len();
    let mut all: Vec<YoloDetection> = Vec::new();
    let mut idx: usize = 0;
    while idx < n_heads
        invariant
            idx <= n_heads,
            n_heads == heads@.len(),
            1 <= img_w <= 65536,
            1 <= img_h <= 65536,
            forall|i: int| 0 <= i < heads@.len() ==> (#[trigger] heads@[i]).well_formed(),
            forall|i: int| 0 <= i < idx ==> (#[trigger] heads@[i]).spec_shape_ok(),
            all@ == spec_all_head_detections(
                heads@.take(idx as int),
                img_w as int,
                img_h as int,
            ),
            forall|i: int| 0 <= i < all@.len() ==> (#[trigger] all@[i]).well_formed(),
        decreases n_heads - idx,
    {
        let head = &heads[idx];
        let ghost n = head.spec_n_anchors();
        let ghost g_len = head.spec_grid_len();
        let buffer = head.buffer.clone();
        proof {
            assert(buffer@ =~= head.buffer@);
        }
        let anchors: Option<Vec<Anchor>> = match &head.anchors {
            Some(v) => {
                let c = v.clone();
                proof {
                    assert(c@ =~= v@);
                }
                Some(c)
            },
            None => None,
        };
        let dets = match process_result(
            buffer,
            img_w,
            img_h,
            anchors,
            head.grid_x,
            head.grid_y,
            head.zp,
            head.scale,
        ) {
            Ok(d) => d,
            Err(e) => {
                proof {
                    assert(!heads@[idx as int].spec_shape_ok());
                }
                return Err(e);
            },
        };
        proof {
            assert(heads@[idx as int].spec_shape_ok());
            assert(dets@ == heads@[idx as int].spec_detections(img_w as int, img_h as int));
            assert forall|i: int| 0 <= i < dets@.len() implies (#[trigger] dets@[i]).well_formed()
                by {
                lemma_decoded_well_formed(
                    spec_column_chunk(heads@[idx as int].buffer@, g_len, i % n, i / n),
                    match heads@[idx as int].anchors {
                        Some(v) => Some(v@[i % n]),
                        None => None,
                    },
                    img_w as int,
                    img_h as int,
                    heads@[idx as int].zp as int,
                    heads@[idx as int].scale.mantissa as int,
                    heads@[idx as int].scale.shift as nat,
                    true,
                );
            }
        }
        let mut dets = dets;
        all.append(&mut dets);
        proof {
            assert(heads@.take(idx as int + 1).drop_last() =~= heads@.take(idx as int));
            assert(heads@.take(idx as int + 1).last() == heads@[idx as int]);
        }
        idx = idx + 1;
    }
    proof {
        assert(heads@.take(heads@.len() as int) =~= heads@);
        lemma_filter_confidence_well_formed(all@, min_confidence as int);
    }
    let most_probable = filter_by_confidence(&all, min_confidence);
    let kept = suppress(&most_probable, max_iou);
    Ok(kept)
}

} // verus!
