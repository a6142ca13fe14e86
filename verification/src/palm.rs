//! Palm-region post-processing: non-max suppression over candidate
//! boxes, deterministic primary-region selection, and the crop a selected
//! palm proposes for the landmark model.
use vstd::prelude::*;

use crate::geom::{iclamp, imax, imin, make_transform, rot_from_axis, spec_rot_cos,
    spec_rot_sin, CropTransform, CROP_LIMIT, PX_LIMIT};
use crate::numeric::{div_trunc, div_trunc_i64};
use crate::types::PalmRegion;

verus! {

/// Two boxes overlap too much when their intersection-over-union exceeds
/// this per-mille threshold.
pub const NMS_IOU_MILLI: i64 = 300;

/// Crop expansion over the palm box, as a ratio of 9 to 5 (1.8 times).
pub const CROP_EXPAND_NUM: i64 = 9;

pub const CROP_EXPAND_DEN: i64 = 5;

/// Smallest crop side, milli-pixels (80 px).
pub const MIN_CROP_SIDE: i64 = 80_000;

/// Overlap length of two closed intervals, never negative.
pub open spec fn spec_overlap(a0: int, a1: int, b0: int, b1: int) -> int {
    let lo = imax(a0, b0);
    let hi = imin(a1, b1);
    if hi > lo {
        hi - lo
    } else {
        0
    }
}

/// Intersection area of two boxes.
pub open spec fn spec_inter(a: PalmRegion, b: PalmRegion) -> int {
    spec_overlap(a.bbox[0] as int, a.bbox[2] as int, b.bbox[0] as int, b.bbox[2] as int)
        * spec_overlap(a.bbox[1] as int, a.bbox[3] as int, b.bbox[1] as int, b.bbox[3] as int)
}

/// Whether the intersection-over-union of two boxes exceeds the
/// suppression threshold, compared without division:
/// `inter * 1000 > threshold * union`.
pub open spec fn spec_iou_exceeds(a: PalmRegion, b: PalmRegion) -> bool {
    let inter = spec_inter(a, b);
    let combined = a.spec_area() + b.spec_area() - inter;
    inter * 1000 > NMS_IOU_MILLI * combined
}

/// Whether `r` overlaps any already-kept region too much.
pub open spec fn spec_overlaps_any(kept: Seq<PalmRegion>, r: PalmRegion) -> bool {
    exists|k: int| 0 <= k < kept.len() && spec_iou_exceeds(#[trigger] kept[k], r)
}

/// Greedy front-to-back non-max suppression: a region is kept when it
/// does not overlap any earlier kept region beyond the threshold.
pub open spec fn spec_nms(s: Seq<PalmRegion>) -> Seq<PalmRegion>
    decreases s.len(),
{
    if s.len() == 0 {
        s
    } else {
        let prev = spec_nms(s.drop_last());
        if spec_overlaps_any(prev, s.last()) {
            prev
        } else {
            prev.push(s.last())
        }
    }
}

/// No two survivors of suppression overlap beyond the threshold: every
/// kept region was checked against all regions kept before it.
pub proof fn lemma_nms_pairwise(s: Seq<PalmRegion>)
    ensures
        forall|i: int, j: int|
            0 <= i < j < spec_nms(s).len() ==> !spec_iou_exceeds(
                #[trigger] spec_nms(s)[i],
                #[trigger] spec_nms(s)[j],
            ),
    decreases s.len(),
{
    if s.len() > 0 {
        lemma_nms_pairwise(s.drop_last());
        let prev = spec_nms(s.drop_last());
        let r = spec_nms(s);
        if !spec_overlaps_any(prev, s.last()) {
            assert(r == prev.push(s.last()));
            assert forall|i: int, j: int|
                0 <= i < j < r.len() implies !spec_iou_exceeds(
                #[trigger] r[i],
                #[trigger] r[j],
            ) by {
                if j < r.len() - 1 {
                    assert(r[i] == prev[i] && r[j] == prev[j]);
                } else {
                    assert(r[j] == s.last());
                    assert(r[i] == prev[i]);
                    assert(!spec_iou_exceeds(prev[i], s.last()));
                }
            }
        }
    }
}

/// Whether `a` ranks strictly above `b` for primary selection: higher
/// score, or equal score and larger box area.
pub open spec fn spec_region_better(a: PalmRegion, b: PalmRegion) -> bool {
    a.score > b.score || (a.score == b.score && a.spec_area() > b.spec_area())
}

/// Index of the primary region of a non-empty list: the highest score,
/// ties broken by larger area, remaining ties by the earliest index.
pub open spec fn spec_primary_idx(s: Seq<PalmRegion>) -> int
    decreases s.len(),
{
    if s.len() <= 1 {
        0
    } else {
        let p = spec_primary_idx(s.drop_last());
        if spec_region_better(s.last(), s[p]) {
            s.len() - 1
        } else {
            p
        }
    }
}

/// The primary index points at a region no other region strictly beats.
pub proof fn lemma_primary_idx(s: Seq<PalmRegion>)
    requires
        s.len() >= 1,
    ensures
        0 <= spec_primary_idx(s) < s.len(),
        forall|j: int|
            0 <= j < s.len() ==> !spec_region_better(#[trigger] s[j], s[spec_primary_idx(s)]),
    decreases s.len(),
{
    if s.len() > 1 {
        let d = s.drop_last();
        lemma_primary_idx(d);
        assert(forall|i: int| 0 <= i < s.len() - 1 ==> #[trigger] d[i] == s[i]);
        assert(s.last() == s[s.len() - 1]);
        let p0 = spec_primary_idx(d);
        let p = spec_primary_idx(s);
        assert forall|j: int|
            0 <= j < s.len() implies !spec_region_better(#[trigger] s[j], s[p]) by {
            if j < s.len() - 1 {
                assert(d[j] == s[j]);
                assert(!spec_region_better(d[j], d[p0]));
            }
            if spec_region_better(s.last(), s[p0]) {
                assert(p == s.len() - 1);
                if j < s.len() - 1 && spec_region_better(s[j], s[p]) {
                    assert(spec_region_better(s[j], s[p0]));
                }
            } else {
                assert(p == p0);
            }
        }
    }
}

/// Exact area of a region's box.
fn region_area(r: &PalmRegion) -> (a: i64)
    requires
        r.wf(),
    ensures
        a == r.spec_area(),
        0 <= a <= 40_000_000_000_000_000,
{
    let w = r.bbox[2] - r.bbox[0];
    let h = r.bbox[3] - r.bbox[1];
    proof {
        assert(0 <= (w as int) * (h as int) <= 40_000_000_000_000_000) by (nonlinear_arith)
            requires
                0 <= w <= 200_000_000,
                0 <= h <= 200_000_000,
        ;
    }
    w * h
}

/// Pick the primary palm region; mirrors `spec_primary_idx`. Returns
/// `None` exactly when the list is empty.
pub fn pick_primary_region(regions: &Vec<PalmRegion>) -> (r: Option<usize>)
    requires
        forall|i: int| 0 <= i < regions@.len() ==> (#[trigger] regions@[i]).wf(),
    ensures
        r is Some <==> regions@.len() > 0,
        r matches Some(i) ==> i as int == spec_primary_idx(regions@),
{
    if regions.len() == 0 {
        return None;
    }
    let mut best: usize = 0;
    let mut i: usize = 1;
    while i < regions.len()
        invariant
            1 <= i <= regions@.len(),
            best < i,
            forall|j: int| 0 <= j < regions@.len() ==> (#[trigger] regions@[j]).wf(),
            best == spec_primary_idx(regions@.take(i as int)),
        decreases regions@.len() - i,
    {
        proof {
            assert(regions@.take(i + 1).drop_last() =~= regions@.take(i as int));
            assert(regions@.take(i + 1).last() == regions@[i as int]);
            assert(regions@.take(i as int)[best as int] == regions@[best as int]);
        }
        let cand = &regions[i];
        let cur = &regions[best];
        let better = cand.score > cur.score || (cand.score == cur.score && region_area(cand)
            > region_area(cur));
        if better {
            best = i;
        }
        i = i + 1;
    }
    proof {
        assert(regions@.take(regions@.len() as int) =~= regions@);
    }
    Some(best)
}

/// Whether `r` overlaps any kept region too much; mirrors
/// `spec_overlaps_any`.
fn overlaps_any(kept: &Vec<PalmRegion>, r: &PalmRegion) -> (b: bool)
    requires
        forall|i: int| 0 <= i < kept@.len() ==> (#[trigger] kept@[i]).wf(),
        r.wf(),
    ensures
        b == spec_overlaps_any(kept@, *r),
{
    let mut i: usize = 0;
    while i < kept.len()
        invariant
            0 <= i <= kept@.len(),
            forall|j: int| 0 <= j < kept@.len() ==> (#[trigger] kept@[j]).wf(),
            r.wf(),
            forall|k: int| 0 <= k < i ==> !spec_iou_exceeds(#[trigger] kept@[k], *r),
        decreases kept@.len() - i,
    {
        if iou_exceeds(&kept[i], r) {
            return true;
        }
        i = i + 1;
    }
    false
}

/// Overlap length of two closed intervals; mirrors `spec_overlap`.
fn overlap_len(a0: i64, a1: i64, b0: i64, b1: i64) -> (r: i64)
    requires
        -PX_LIMIT <= a0 <= a1 <= PX_LIMIT,
        -PX_LIMIT <= b0 <= b1 <= PX_LIMIT,
    ensures
        r == spec_overlap(a0 as int, a1 as int, b0 as int, b1 as int),
        0 <= r <= 200_000_000,
{
    let lo = if a0 > b0 {
        a0
    } else {
        b0
    };
    let hi = if a1 < b1 {
        a1
    } else {
        b1
    };
    if hi > lo {
        hi - lo
    } else {
        0
    }
}

/// Whether two boxes overlap beyond the threshold; mirrors
/// `spec_iou_exceeds`.
fn iou_exceeds(a: &PalmRegion, b: &PalmRegion) -> (r: bool)
    requires
        a.wf(),
        b.wf(),
    ensures
        r == spec_iou_exceeds(*a, *b),
{
    let ox = overlap_len(a.bbox[0], a.bbox[2], b.bbox[0], b.bbox[2]);
    let oy = overlap_len(a.bbox[1], a.bbox[3], b.bbox[1], b.bbox[3]);
    proof {
        assert(0 <= (ox as int) * (oy as int) <= 40_000_000_000_000_000) by (nonlinear_arith)
            requires
                0 <= ox <= 200_000_000,
                0 <= oy <= 200_000_000,
        ;
    }
    let inter: i64 = ox * oy;
    let area_a = region_area(a);
    let area_b = region_area(b);
    let combined: i64 = area_a + area_b - inter;
    proof {
        assert(spec_inter(*a, *b) <= a.spec_area() && spec_inter(*a, *b) <= b.spec_area())
            by (nonlinear_arith)
            requires
                spec_inter(*a, *b) == (ox as int) * (oy as int),
                a.spec_area() == ((a.bbox[2] - a.bbox[0]) as int) * ((a.bbox[3]
                    - a.bbox[1]) as int),
                b.spec_area() == ((b.bbox[2] - b.bbox[0]) as int) * ((b.bbox[3]
                    - b.bbox[1]) as int),
                0 <= ox <= (a.bbox[2] - a.bbox[0]) as int,
                0 <= ox <= (b.bbox[2] - b.bbox[0]) as int,
                0 <= oy <= (a.bbox[3] - a.bbox[1]) as int,
                0 <= oy <= (b.bbox[3] - b.bbox[1]) as int,
        ;
    }
    let lhs: i128 = (inter as i128) * 1000;
    let rhs: i128 = (NMS_IOU_MILLI as i128) * (combined as i128);
    lhs > rhs
}

/// Suppress overlapping candidates, keeping the front-to-back survivors;
/// mirrors `spec_nms`.
pub fn suppress_overlaps(regions: Vec<PalmRegion>) -> (r: Vec<PalmRegion>)
    requires
        forall|i: int| 0 <= i < regions@.len() ==> (#[trigger] regions@[i]).wf(),
    ensures
        r@ == spec_nms(regions@),
        forall|i: int| 0 <= i < r@.len() ==> (#[trigger] r@[i]).wf(),
{
    let ghost orig = regions@;
    let mut rest = regions;
    let total = rest.len();
    let mut kept: Vec<PalmRegion> = Vec::new();
    let mut i: usize = 0;
    while rest.len() > 0
        invariant
            total == orig.len(),
            i + rest@.len() == orig.len(),
            rest@ == orig.skip(i as int),
            forall|j: int| 0 <= j < orig.len() ==> (#[trigger] orig[j]).wf(),
            kept@ == spec_nms(orig.take(i as int)),
            forall|j: int| 0 <= j < kept@.len() ==> (#[trigger] kept@[j]).wf(),
        decreases rest@.len(),
    {
        proof {
            assert(orig.take(i + 1).drop_last() =~= orig.take(i as int));
            assert(orig.take(i + 1).last() == orig[i as int]);
            assert(rest@[0] == orig[i as int]);
        }
        let r = rest.remove(0);
        proof {
            assert(rest@ =~= orig.skip(i + 1));
            assert(r.wf());
        }
        if !overlaps_any(&kept, &r) {
            kept.push(r);
            proof {
                assert(kept@ =~= spec_nms(orig.take(i + 1)));
            }
        }
        i = i + 1;
    }
    proof {
        assert(orig.take(orig.len() as int) =~= orig);
    }
    kept
}

/// Candidates below this per-mille detection score are discarded before
/// suppression.
pub const MIN_DETECTION_SCORE: u32 = 500;

/// The candidates that clear the detection-score floor, in order.
pub open spec fn spec_score_filter(s: Seq<PalmRegion>) -> Seq<PalmRegion>
    decreases s.len(),
{
    if s.len() == 0 {
        s
    } else {
        let prev = spec_score_filter(s.drop_last());
        if s.last().score >= MIN_DETECTION_SCORE {
            prev.push(s.last())
        } else {
            prev
        }
    }
}

/// Post-process raw palm candidates: drop the ones under the score
/// floor, then suppress overlaps among the survivors; mirrors
/// `spec_nms` over `spec_score_filter`.
pub fn select_palm_candidates(candidates: Vec<PalmRegion>) -> (r: Vec<PalmRegion>)
    requires
        forall|i: int| 0 <= i < candidates@.len() ==> (#[trigger] candidates@[i]).wf(),
    ensures
        r@ == spec_nms(spec_score_filter(candidates@)),
        forall|i: int| 0 <= i < r@.len() ==> (#[trigger] r@[i]).wf(),
{
    let ghost orig = candidates@;
    let mut rest = candidates;
    let total = rest.len();
    let mut kept: Vec<PalmRegion> = Vec::new();
    let mut i: usize = 0;
    while rest.len() > 0
        invariant
            total == orig.len(),
            i + rest@.len() == orig.len(),
            rest@ == orig.skip(i as int),
            forall|j: int| 0 <= j < orig.len() ==> (#[trigger] orig[j]).wf(),
            kept@ == spec_score_filter(orig.take(i as int)),
            forall|j: int| 0 <= j < kept@.len() ==> (#[trigger] kept@[j]).wf(),
        decreases rest@.len(),
    {
        proof {
            assert(orig.take(i + 1).drop_last() =~= orig.take(i as int));
            assert(orig.take(i + 1).last() == orig[i as int]);
            assert(rest@[0] == orig[i as int]);
        }
        let region = rest.remove(0);
        proof {
            assert(rest@ =~= orig.skip(i + 1));
            assert(region.wf());
        }
        if region.score >= MIN_DETECTION_SCORE {
            kept.push(region);
            proof {
                assert(kept@ =~= spec_score_filter(orig.take(i + 1)));
            }
        }
        i = i + 1;
    }
    proof {
        assert(orig.take(orig.len() as int) =~= orig);
    }
    suppress_overlaps(kept)
}

/// Crop center x of a palm region: the box midpoint.
pub open spec fn spec_crop_cx(r: PalmRegion) -> int {
    div_trunc(r.bbox[0] + r.bbox[2], 2)
}

pub open spec fn spec_crop_cy(r: PalmRegion) -> int {
    div_trunc(r.bbox[1] + r.bbox[3], 2)
}

/// Crop side of a palm region: the larger box side expanded 1.8 times,
/// floored at the smallest crop.
pub open spec fn spec_crop_side(r: PalmRegion) -> int {
    imax(
        imax(r.bbox[2] - r.bbox[0], r.bbox[3] - r.bbox[1]) * (CROP_EXPAND_NUM as int) / (
        CROP_EXPAND_DEN as int),
        MIN_CROP_SIDE as int,
    )
}

/// Whether the detector keypoints fix a crop rotation: at least three
/// keypoints with a non-degenerate wrist-to-middle axis.
pub open spec fn spec_palm_has_rot(r: PalmRegion) -> bool {
    r.landmarks@.len() >= 3 && !(r.landmarks@[2].x == r.landmarks@[0].x && r.landmarks@[2].y
        == r.landmarks@[0].y)
}

pub open spec fn spec_palm_axis_x(r: PalmRegion) -> int {
    r.landmarks@[2].x - r.landmarks@[0].x
}

pub open spec fn spec_palm_axis_y(r: PalmRegion) -> int {
    r.landmarks@[2].y - r.landmarks@[0].y
}

/// The crop transform a selected palm region proposes: box midpoint,
/// expanded side, rotation from the wrist-to-middle keypoint axis (or
/// axis-aligned when the keypoints are missing or degenerate), all
/// clamped into the crop domain.
pub open spec fn spec_crop_from_palm(r: PalmRegion) -> CropTransform {
    let rc: int = if spec_palm_has_rot(r) {
        spec_rot_cos(spec_palm_axis_x(r), spec_palm_axis_y(r))
    } else {
        1000
    };
    let rs: int = if spec_palm_has_rot(r) {
        spec_rot_sin(spec_palm_axis_x(r), spec_palm_axis_y(r))
    } else {
        0
    };
    CropTransform {
        cx: iclamp(spec_crop_cx(r), -CROP_LIMIT as int, CROP_LIMIT as int) as i64,
        cy: iclamp(spec_crop_cy(r), -CROP_LIMIT as int, CROP_LIMIT as int) as i64,
        side: iclamp(spec_crop_side(r), 1, CROP_LIMIT as int) as i64,
        rot_cos: iclamp(rc, -1000, 1000) as i64,
        rot_sin: iclamp(rs, -1000, 1000) as i64,
    }
}

/// Build the landmark-model crop for a selected palm region; mirrors
/// `spec_crop_from_palm`.
pub fn crop_from_palm(r: &PalmRegion) -> (t: CropTransform)
    requires
        r.wf(),
        forall|i: int|
            0 <= i < r.landmarks@.len() ==> crate::geom::p2_in(#[trigger] r.landmarks@[i],
            PX_LIMIT as int),
    ensures
        t == spec_crop_from_palm(*r),
        t.wf(),
{
    let cx = div_trunc_i64(r.bbox[0] + r.bbox[2], 2);
    let cy = div_trunc_i64(r.bbox[1] + r.bbox[3], 2);
    let w = r.bbox[2] - r.bbox[0];
    let h = r.bbox[3] - r.bbox[1];
    let larger = if w > h {
        w
    } else {
        h
    };
    proof {
        assert(0 <= larger <= 200_000_000);
    }
    let mut side: i64 = (((larger as u64) * (CROP_EXPAND_NUM as u64)) / (CROP_EXPAND_DEN as u64))
        as i64;
    if side < MIN_CROP_SIDE {
        side = MIN_CROP_SIDE;
    }
    let (rot_cos, rot_sin) = if r.landmarks.len() >= 3 {
        let ax = r.landmarks[2].x - r.landmarks[0].x;
        let ay = r.landmarks[2].y - r.landmarks[0].y;
        if ax == 0 && ay == 0 {
            (1000, 0)
        } else {
            rot_from_axis(ax, ay)
        }
    } else {
        (1000, 0)
    };
    make_transform(cx, cy, side, rot_cos, rot_sin)
}

} // verus!
