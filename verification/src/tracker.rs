//! Region-of-interest tracking: a single-slot, short-lived estimate of
//! where the hand was last seen, so the pipeline keeps cropping near the
//! hand through brief palm-detection misses.
use vstd::prelude::*;

use crate::geom::{bbox2, imax, imin, lemma_bbox2, lemma_bbox2_bounded, max_x2, max_y2, min_x2,
    min_y2, p2_in, projected_span, rot_from_axis, spec_projected_span, spec_rot_cos,
    spec_rot_sin, CropTransform, PX_LIMIT};
use crate::motion::spec_age;
use crate::numeric::{div_trunc, div_trunc_i64};
use crate::types::Point2;

verus! {

/// A tracked estimate older than this many milliseconds is stale.
pub const TRACK_MAX_AGE_MS: u64 = 450;

/// A tracked estimate below this per-mille confidence is stale.
pub const TRACK_MIN_CONF: u32 = 150;

/// The region the tracker proposes for the next crop: center and side in
/// milli-pixels, rotation as a per-mille unit vector.
#[derive(Clone, Copy, Debug, PartialEq, Eq, Structural)]
pub struct RoiEstimate {
    pub cx: i64,
    pub cy: i64,
    pub side: i64,
    pub rot_cos: i64,
    pub rot_sin: i64,
}

/// The last successful landmark decode: its crop transform, projected
/// landmarks, effective confidence, and when it was seen.
#[derive(Clone, Debug)]
pub struct TrackedHand {
    pub transform: CropTransform,
    pub projected: Vec<Point2>,
    pub confidence: u32,
    pub last_seen: u64,
}

/// Stale at or past the age threshold, or under the confidence floor.
pub open spec fn spec_is_stale(confidence: u32, last_seen: u64, now: u64) -> bool {
    spec_age(last_seen, now) >= TRACK_MAX_AGE_MS || confidence < TRACK_MIN_CONF
}

/// Hand-axis x component of a projected landmark set: from the wrist to
/// the midpoint of index and pinky roots (doubled to stay integral).
pub open spec fn spec_axis_x(s: Seq<Point2>) -> int {
    s[5].x + s[17].x - 2 * s[0].x
}

/// Hand-axis y component, doubled.
pub open spec fn spec_axis_y(s: Seq<Point2>) -> int {
    s[5].y + s[17].y - 2 * s[0].y
}

/// Whether the landmark set determines an orientation at all.
pub open spec fn spec_has_orientation(s: Seq<Point2>) -> bool {
    s.len() > 17 && !(spec_axis_x(s) == 0 && spec_axis_y(s) == 0)
}

/// Rotation cosine of the proposed region: re-estimated from the
/// landmarks, falling back to the prior transform when degenerate.
pub open spec fn spec_roi_rot_cos(t: CropTransform, s: Seq<Point2>) -> int {
    if spec_has_orientation(s) {
        spec_rot_cos(spec_axis_x(s), spec_axis_y(s))
    } else {
        t.rot_cos as int
    }
}

/// Rotation sine of the proposed region.
pub open spec fn spec_roi_rot_sin(t: CropTransform, s: Seq<Point2>) -> int {
    if spec_has_orientation(s) {
        spec_rot_sin(spec_axis_x(s), spec_axis_y(s))
    } else {
        t.rot_sin as int
    }
}

/// Side of the proposed region: the projected span expanded 1.8 times,
/// clamped between 0.7 and 2.5 times the prior crop side, and floored at
/// 80 pixels.
pub open spec fn spec_roi_side(span: int, prior: int) -> int {
    imax(imin(imax(span * 9 / 5, prior * 7 / 10), prior * 5 / 2), 80_000)
}

/// The region a tracked hand proposes: the bounding-box midpoint of its
/// projected landmarks with the expanded, clamped side; `None` under
/// three landmarks.
pub open spec fn spec_estimate_roi(t: CropTransform, s: Seq<Point2>) -> Option<RoiEstimate> {
    if s.len() < 3 {
        Option::None
    } else {
        Option::Some(
            RoiEstimate {
                cx: div_trunc(min_x2(s) + max_x2(s), 2) as i64,
                cy: div_trunc(min_y2(s) + max_y2(s), 2) as i64,
                side: spec_roi_side(spec_projected_span(s), t.side as int) as i64,
                rot_cos: spec_roi_rot_cos(t, s) as i64,
                rot_sin: spec_roi_rot_sin(t, s) as i64,
            },
        )
    }
}

/// Orientation of a projected landmark set, as a per-mille rotation unit
/// vector; `None` when too few points or the axis is degenerate.
pub fn estimate_orientation_from_landmarks(points: &Vec<Point2>) -> (r: Option<(i64, i64)>)
    requires
        forall|i: int| 0 <= i < points@.len() ==> p2_in(#[trigger] points@[i], PX_LIMIT as int),
    ensures
        r is Some <==> spec_has_orientation(points@),
        spec_has_orientation(points@) ==> (r matches Some(cs) && cs.0 == spec_rot_cos(
            spec_axis_x(points@),
            spec_axis_y(points@),
        ) && cs.1 == spec_rot_sin(spec_axis_x(points@), spec_axis_y(points@))),
{
    if points.len() <= 17 {
        return None;
    }
    let wrist = points[0];
    let index = points[5];
    let pinky = points[17];
    let axis_x = index.x + pinky.x - 2 * wrist.x;
    let axis_y = index.y + pinky.y - 2 * wrist.y;
    if axis_x == 0 && axis_y == 0 {
        return None;
    }
    Some(rot_from_axis(axis_x, axis_y))
}

impl TrackedHand {
    /// Every stored point is in the pixel domain, the transform is
    /// well-formed, and the confidence is per-mille.
    pub open spec fn wf(self) -> bool {
        &&& self.transform.wf()
        &&& self.confidence <= 1000
        &&& forall|i: int|
            0 <= i < self.projected@.len() ==> p2_in(#[trigger] self.projected@[i],
            PX_LIMIT as int)
    }

    /// Whether this estimate is too old or too uncertain to use;
    /// mirrors `spec_is_stale`: stale exactly at the age threshold,
    /// fresh just before it.
    pub fn is_stale(&self, now: u64) -> (r: bool)
        ensures
            r == spec_is_stale(self.confidence, self.last_seen, now),
    {
        let age: u64 = if now >= self.last_seen {
            now - self.last_seen
        } else {
            0
        };
        age >= TRACK_MAX_AGE_MS || self.confidence < TRACK_MIN_CONF
    }

    /// Propose the next crop region from the stored landmarks; mirrors
    /// `spec_estimate_roi`.
    pub fn estimate_roi(&self) -> (r: Option<RoiEstimate>)
        requires
            self.wf(),
        ensures
            r == spec_estimate_roi(self.transform, self.projected@),
    {
        if self.projected.len() < 3 {
            return None;
        }
        let (min_x, min_y, max_x, max_y) = bbox2(&self.projected);
        proof {
            lemma_bbox2(self.projected@);
            lemma_bbox2_bounded(self.projected@, PX_LIMIT as int);
        }
        let span = projected_span(&self.projected);
        let expanded: i64 = ((span as u64) * 9 / 5) as i64;
        let lower: i64 = ((self.transform.side as u64) * 7 / 10) as i64;
        let upper: i64 = ((self.transform.side as u64) * 5 / 2) as i64;
        let mut side = if expanded > lower {
            expanded
        } else {
            lower
        };
        if side > upper {
            side = upper;
        }
        if side < 80_000 {
            side = 80_000;
        }
        let cx = div_trunc_i64(min_x + max_x, 2);
        let cy = div_trunc_i64(min_y + max_y, 2);
        let (rot_cos, rot_sin) = match estimate_orientation_from_landmarks(&self.projected) {
            Some(cs) => cs,
            None => (self.transform.rot_cos, self.transform.rot_sin),
        };
        Some(RoiEstimate { cx, cy, side, rot_cos, rot_sin })
    }
}

/// The single-slot hand tracker: at most one tracked hand, replaced or
/// cleared on every cycle.
pub struct HandTracker {
    pub last: Option<TrackedHand>,
}

/// What the tracker answers when read at `now`: the proposed region and
/// the stored confidence, or nothing when empty, stale, or under three
/// landmarks.
pub open spec fn spec_tracker_roi(tr: HandTracker, now: u64) -> Option<(RoiEstimate, u32)> {
    match tr.last {
        Option::None => Option::None,
        Option::Some(th) => {
            if spec_is_stale(th.confidence, th.last_seen, now) {
                Option::None
            } else {
                match spec_estimate_roi(th.transform, th.projected@) {
                    Option::None => Option::None,
                    Option::Some(roi) => Option::Some((roi, th.confidence)),
                }
            }
        },
    }
}

impl HandTracker {
    pub open spec fn wf(self) -> bool {
        match self.last {
            Option::None => true,
            Option::Some(th) => th.wf(),
        }
    }

    pub fn new() -> (r: HandTracker)
        ensures
            r.last is None,
            r.wf(),
    {
        HandTracker { last: None }
    }

    /// Refresh the tracked hand after a landmark decode: an empty
    /// projection clears the slot, anything else replaces it whole (no
    /// smoothing across cycles).
    pub fn update(
        &mut self,
        transform: &CropTransform,
        projected: &Vec<Point2>,
        confidence: u32,
        now: u64,
    )
        requires
            transform.wf(),
            confidence <= 1000,
            forall|i: int|
                0 <= i < projected@.len() ==> p2_in(#[trigger] projected@[i], PX_LIMIT as int),
        ensures
            projected@.len() == 0 ==> final(self).last is None,
            projected@.len() > 0 ==> (final(self).last matches Some(th) && th.transform
                == *transform && th.projected@ == projected@ && th.confidence == confidence
                && th.last_seen == now),
            final(self).wf(),
    {
        if projected.len() == 0 {
            self.last = None;
            return;
        }
        self.last = Some(
            TrackedHand {
                transform: *transform,
                projected: clone_points(projected),
                confidence,
                last_seen: now,
            },
        );
    }

    /// Read the fallback region at `now`; mirrors `spec_tracker_roi`.
    pub fn estimate_roi(&self, now: u64) -> (r: Option<(RoiEstimate, u32)>)
        requires
            self.wf(),
        ensures
            r == spec_tracker_roi(*self, now),
    {
        let th = match &self.last {
            Some(t) => t,
            None => {
                return None;
            },
        };
        if th.is_stale(now) {
            return None;
        }
        match th.estimate_roi() {
            Some(roi) => Some((roi, th.confidence)),
            None => None,
        }
    }
}

/// Copy a landmark list.
fn clone_points(points: &Vec<Point2>) -> (r: Vec<Point2>)
    ensures
        r@ == points@,
{
    let mut out: Vec<Point2> = Vec::new();
    let mut i: usize = 0;
    while i < points.len()
        invariant
            0 <= i <= points@.len(),
            out@.len() == i,
            forall|j: int| 0 <= j < i ==> #[trigger] out@[j] == points@[j],
        decreases points@.len() - i,
    {
        out.push(points[i]);
        i = i + 1;
    }
    proof {
        assert(out@ =~= points@);
    }
    out
}

/// Feeding a projected landmark set and reading the region back before
/// the staleness window elapses returns a region derived from that same
/// bounding box: the center is the box midpoint and the side is at least
/// the expanded span, as long as the expansion stays within 2.5 times the
/// prior crop side (beyond that the upper clamp caps the side).
pub proof fn lemma_tracker_round_trip(th: TrackedHand, now: u64)
    requires
        th.wf(),
        th.projected@.len() >= 3,
        th.confidence >= TRACK_MIN_CONF,
        spec_age(th.last_seen, now) < TRACK_MAX_AGE_MS,
        spec_projected_span(th.projected@) * 9 / 5 <= (th.transform.side as int) * 5 / 2,
    ensures
        spec_tracker_roi(HandTracker { last: Some(th) }, now) matches Some((roi, c)) && c
            == th.confidence && roi.cx == div_trunc(
            min_x2(th.projected@) + max_x2(th.projected@),
            2,
        ) && roi.cy == div_trunc(min_y2(th.projected@) + max_y2(th.projected@), 2) && roi.side
            >= spec_projected_span(th.projected@) * 9 / 5,
{
    lemma_bbox2_bounded(th.projected@, PX_LIMIT as int);
}

/// An estimate read exactly at the staleness threshold returns nothing;
/// read one millisecond earlier it returns a region.
pub proof fn lemma_staleness_boundary(th: TrackedHand, now_at: u64, now_before: u64)
    requires
        th.wf(),
        th.projected@.len() >= 3,
        th.confidence >= TRACK_MIN_CONF,
        now_at == th.last_seen + TRACK_MAX_AGE_MS,
        now_before == th.last_seen + TRACK_MAX_AGE_MS - 1,
    ensures
        spec_tracker_roi(HandTracker { last: Some(th) }, now_at) is None,
        spec_tracker_roi(HandTracker { last: Some(th) }, now_before) is Some,
{
}

} // verus!
