//! Geometric gesture classification: landmark normalization, per-finger
//! flex states, a fixed-priority decision table for the primary gesture,
//! an optional secondary guess, and handedness mapping.
use vstd::prelude::*;

use crate::geom::{average_straightness, bbox3, diff3, dist3, iabs, imax, imin,
    lemma_bbox3, lemma_bbox3_bounded, max_x3, max_y3, min_x3, min_y3, p2_in, p3_in,
    projected_span, spec_cos_milli, spec_dist3, spec_projected_span, spec_straightness,
    spec_vdiff, NORM_LIMIT, PX_LIMIT, RAW_LIMIT};
use crate::motion::{spec_evict, spec_motion_class, MotionSample, MotionTracker};
use crate::numeric::{div_trunc, div_trunc_i64, lemma_div_le_factor};
use crate::types::{FingerState, FingerStates, GestureDetail, GestureKind, Handedness, Point2,
    Point3};

verus! {

/// Classification floor: below this per-mille confidence no gesture detail
/// is produced.
pub const MIN_CONFIDENCE: u32 = 200;

/// Scale divisor of the normalized hand: the largest bounding-box side,
/// floored at one milli-unit.
pub open spec fn spec_norm_span(s: Seq<Point3>) -> int {
    imax(imax(max_x3(s) - min_x3(s), max_y3(s) - min_y3(s)), 1)
}

/// One landmark translated by the box minimum and rescaled so the hand
/// spans 1000 milli-units; z is rescaled by the same factor.
pub open spec fn spec_norm_pt(s: Seq<Point3>, i: int) -> Point3 {
    let span = spec_norm_span(s);
    Point3 {
        x: div_trunc((s[i].x - min_x3(s)) * 1000, span) as i64,
        y: div_trunc((s[i].y - min_y3(s)) * 1000, span) as i64,
        z: div_trunc(s[i].z * 1000, span) as i64,
    }
}

/// The whole landmark set, normalized.
pub open spec fn spec_normalized(s: Seq<Point3>) -> Seq<Point3> {
    Seq::new(s.len(), |i: int| spec_norm_pt(s, i))
}

/// Scale- and translation-invariant landmarks; mirrors `spec_normalized`,
/// and also returns the hand span before rescaling.
pub fn normalize_landmarks(points: &Vec<Point3>) -> (r: (Vec<Point3>, i64))
    requires
        points@.len() >= 1,
        forall|i: int| 0 <= i < points@.len() ==> p3_in(#[trigger] points@[i], RAW_LIMIT as int),
    ensures
        r.0@ =~= spec_normalized(points@),
        r.1 == spec_norm_span(points@),
        forall|i: int|
            0 <= i < r.0@.len() ==> 0 <= #[trigger] r.0@[i].x <= 1000 && 0 <= r.0@[i].y <= 1000
                && -NORM_LIMIT <= r.0@[i].z <= NORM_LIMIT,
{
    let (min_x, min_y, max_x, max_y) = bbox3(points);
    proof {
        lemma_bbox3(points@);
        lemma_bbox3_bounded(points@, RAW_LIMIT as int);
    }
    let span_x = max_x - min_x;
    let span_y = max_y - min_y;
    let mut span = if span_x > span_y {
        span_x
    } else {
        span_y
    };
    if span < 1 {
        span = 1;
    }
    let mut out: Vec<Point3> = Vec::new();
    let mut i: usize = 0;
    while i < points.len()
        invariant
            0 <= i <= points@.len(),
            forall|j: int|
                0 <= j < points@.len() ==> p3_in(#[trigger] points@[j], RAW_LIMIT as int),
            span == spec_norm_span(points@),
            1 <= span <= 2_000_000,
            min_x == min_x3(points@),
            min_y == min_y3(points@),
            forall|j: int|
                0 <= j < points@.len() ==> min_x3(points@) <= #[trigger] points@[j].x
                    && points@[j].x - min_x3(points@) <= spec_norm_span(points@) && min_y3(points@)
                    <= points@[j].y && points@[j].y - min_y3(points@) <= spec_norm_span(points@),
            out@.len() == i,
            forall|j: int| 0 <= j < i ==> #[trigger] out@[j] == spec_norm_pt(points@, j),
            forall|j: int|
                0 <= j < i ==> 0 <= #[trigger] out@[j].x <= 1000 && 0 <= out@[j].y <= 1000
                    && -NORM_LIMIT <= out@[j].z <= NORM_LIMIT,
        decreases points@.len() - i,
    {
        let p = points[i];
        proof {
            lemma_div_le_factor(((p.x - min_x) as int) * 1000, 1000, span as int);
            lemma_div_le_factor(((p.y - min_y) as int) * 1000, 1000, span as int);
        }
        let nx = div_trunc_i64((p.x - min_x) * 1000, span);
        let ny = div_trunc_i64((p.y - min_y) * 1000, span);
        let nz = div_trunc_i64(p.z * 1000, span);
        out.push(Point3 { x: nx, y: ny, z: nz });
        i = i + 1;
    }
    (out, span)
}

/// Flex state of a non-thumb finger from wrist distances and chain
/// straightness, with the fixed empirical thresholds.
pub open spec fn spec_classify_finger(n: Seq<Point3>, mcp: int, pip: int, dip: int, tip: int)
    -> FingerState {
    let dist_tip = spec_dist3(n[tip], n[0]);
    let dist_pip = spec_dist3(n[pip], n[0]);
    let dist_mcp = spec_dist3(n[mcp], n[0]);
    let straight = spec_straightness(
        spec_vdiff(n[pip], n[mcp]),
        spec_vdiff(n[dip], n[pip]),
        spec_vdiff(n[tip], n[dip]),
    );
    let extension = dist_tip - dist_pip;
    let reach = dist_tip - dist_mcp;
    if extension > 180 && straight > 450 && reach > 80 {
        FingerState::Extended
    } else if extension < 80 || straight < 180 || reach < 50 {
        FingerState::Folded
    } else {
        FingerState::HalfBent
    }
}

/// Flex state of one finger; mirrors `spec_classify_finger`.
pub fn classify_finger(n: &Vec<Point3>, mcp: usize, pip: usize, dip: usize, tip: usize) -> (r:
    FingerState)
    requires
        n@.len() >= 21,
        mcp < 21 && pip < 21 && dip < 21 && tip < 21,
        forall|i: int| 0 <= i < n@.len() ==> p3_in(#[trigger] n@[i], NORM_LIMIT as int),
    ensures
        r == spec_classify_finger(n@, mcp as int, pip as int, dip as int, tip as int),
{
    let wrist = n[0];
    let dist_tip = dist3(n[tip], wrist);
    let dist_pip = dist3(n[pip], wrist);
    let dist_mcp = dist3(n[mcp], wrist);
    let straight = average_straightness(
        diff3(n[pip], n[mcp]),
        diff3(n[dip], n[pip]),
        diff3(n[tip], n[dip]),
    );
    let extension = dist_tip - dist_pip;
    let reach = dist_tip - dist_mcp;
    if extension > 180 && straight > 450 && reach > 80 {
        FingerState::Extended
    } else if extension < 80 || straight < 180 || reach < 50 {
        FingerState::Folded
    } else {
        FingerState::HalfBent
    }
}

/// Flex state of the thumb: spread against the neighboring finger roots,
/// tip-to-wrist distance, and chain straightness.
pub open spec fn spec_classify_thumb(n: Seq<Point3>) -> FingerState {
    let dist_tip_wrist = spec_dist3(n[4], n[0]);
    let dist_tip_index = spec_dist3(n[4], n[5]);
    let dist_tip_pinky = spec_dist3(n[4], n[17]);
    let straight = spec_straightness(
        spec_vdiff(n[2], n[1]),
        spec_vdiff(n[4], n[2]),
        spec_vdiff(n[4], n[2]),
    );
    let spread = imin(dist_tip_index, dist_tip_pinky);
    if spread < 160 && straight < 250 {
        FingerState::Folded
    } else if dist_tip_wrist > 350 && straight > 350 {
        FingerState::Extended
    } else {
        FingerState::HalfBent
    }
}

/// Flex state of the thumb; mirrors `spec_classify_thumb`.
pub fn classify_thumb(n: &Vec<Point3>) -> (r: FingerState)
    requires
        n@.len() >= 21,
        forall|i: int| 0 <= i < n@.len() ==> p3_in(#[trigger] n@[i], NORM_LIMIT as int),
    ensures
        r == spec_classify_thumb(n@),
{
    let wrist = n[0];
    let dist_tip_wrist = dist3(n[4], wrist);
    let dist_tip_index = dist3(n[4], n[5]);
    let dist_tip_pinky = dist3(n[4], n[17]);
    let straight = average_straightness(
        diff3(n[2], n[1]),
        diff3(n[4], n[2]),
        diff3(n[4], n[2]),
    );
    let spread = if dist_tip_index < dist_tip_pinky {
        dist_tip_index
    } else {
        dist_tip_pinky
    };
    if spread < 160 && straight < 250 {
        FingerState::Folded
    } else if dist_tip_wrist > 350 && straight > 350 {
        FingerState::Extended
    } else {
        FingerState::HalfBent
    }
}

/// All five finger states of a normalized landmark set.
pub open spec fn spec_finger_states(n: Seq<Point3>) -> FingerStates {
    FingerStates {
        thumb: spec_classify_thumb(n),
        index: spec_classify_finger(n, 5, 6, 7, 8),
        middle: spec_classify_finger(n, 9, 10, 11, 12),
        ring: spec_classify_finger(n, 13, 14, 15, 16),
        pinky: spec_classify_finger(n, 17, 18, 19, 20),
    }
}

pub open spec fn spec_not_extended(s: FingerState) -> bool {
    s != FingerState::Extended
}

pub open spec fn spec_relaxed(s: FingerState) -> bool {
    s == FingerState::Folded || s == FingerState::HalfBent
}

/// Thumb and index pinched together, the rest folded, tips aligned.
pub open spec fn spec_finger_heart(n: Seq<Point3>, st: FingerStates) -> bool {
    &&& spec_dist3(n[4], n[8]) < 80
    &&& st.folded_count() >= 3
    &&& spec_relaxed(st.index)
    &&& spec_relaxed(st.thumb)
    &&& iabs(n[4].y - n[8].y) < 80
}

/// Thumb-to-index pinch with the non-participating fingers relaxed.
pub open spec fn spec_pinch_with_index(n: Seq<Point3>, st: FingerStates) -> bool {
    &&& spec_dist3(n[4], n[8]) < 120
    &&& spec_relaxed(st.middle)
    &&& spec_relaxed(st.ring)
    &&& spec_relaxed(st.pinky)
}

/// Thumb-to-middle pinch with the non-participating fingers relaxed.
pub open spec fn spec_pinch_with_middle(n: Seq<Point3>, st: FingerStates) -> bool {
    &&& spec_dist3(n[4], n[12]) < 120
    &&& spec_relaxed(st.index)
    &&& spec_relaxed(st.ring)
    &&& spec_relaxed(st.pinky)
}

pub open spec fn spec_pinch_like(n: Seq<Point3>, st: FingerStates) -> bool {
    spec_pinch_with_index(n, st) || spec_pinch_with_middle(n, st)
}

/// Thumb-index ring with the middle or ring finger extended.
pub open spec fn spec_ok_like(n: Seq<Point3>, st: FingerStates) -> bool {
    spec_dist3(n[4], n[8]) < 180 && (st.middle == FingerState::Extended || st.ring
        == FingerState::Extended)
}

pub open spec fn spec_ilove(st: FingerStates) -> bool {
    &&& (st.thumb == FingerState::Extended || st.thumb == FingerState::HalfBent)
    &&& st.index == FingerState::Extended
    &&& spec_not_extended(st.middle)
    &&& spec_not_extended(st.ring)
    &&& st.pinky == FingerState::Extended
}

pub open spec fn spec_rock(st: FingerStates) -> bool {
    &&& st.index == FingerState::Extended
    &&& st.pinky == FingerState::Extended
    &&& spec_not_extended(st.middle)
    &&& spec_not_extended(st.ring)
    &&& st.thumb == FingerState::Folded
}

pub open spec fn spec_victory(st: FingerStates) -> bool {
    &&& st.index == FingerState::Extended
    &&& st.middle == FingerState::Extended
    &&& spec_not_extended(st.ring)
    &&& spec_not_extended(st.pinky)
}

pub open spec fn spec_point(st: FingerStates) -> bool {
    &&& st.index == FingerState::Extended
    &&& spec_not_extended(st.middle)
    &&& spec_not_extended(st.ring)
    &&& spec_not_extended(st.pinky)
}

pub open spec fn spec_three(st: FingerStates) -> bool {
    &&& st.index == FingerState::Extended
    &&& st.middle == FingerState::Extended
    &&& st.ring == FingerState::Extended
    &&& spec_not_extended(st.pinky)
}

pub open spec fn spec_four(st: FingerStates) -> bool {
    st.extended_count() >= 4 && spec_not_extended(st.thumb)
}

pub open spec fn spec_fist(st: FingerStates) -> bool {
    st.folded_count() >= 4
}

pub open spec fn spec_open_palm(st: FingerStates) -> bool {
    st.extended_count() >= 4
}

/// Extended thumb pointing up (image y grows downward).
pub open spec fn spec_thumb_up(n: Seq<Point3>, st: FingerStates) -> bool {
    st.thumb == FingerState::Extended && st.folded_count() >= 3 && n[4].y + 80 < n[0].y
}

/// Extended thumb pointing down.
pub open spec fn spec_thumb_down(n: Seq<Point3>, st: FingerStates) -> bool {
    st.thumb == FingerState::Extended && st.folded_count() >= 3 && n[4].y > n[0].y + 80
}

/// The primary decision table. The first true predicate, in this fixed
/// priority order, wins: finger-heart, pinch, ok, I-love-you, rock,
/// victory, point, thumb-up, thumb-down, fist, four, open-palm, three.
pub open spec fn spec_detect_primary(n: Seq<Point3>, st: FingerStates) -> GestureKind {
    if spec_finger_heart(n, st) {
        GestureKind::FingerHeart
    } else if spec_pinch_like(n, st) {
        GestureKind::Pinch
    } else if spec_ok_like(n, st) {
        GestureKind::OkSign
    } else if spec_ilove(st) {
        GestureKind::ILoveYou
    } else if spec_rock(st) {
        GestureKind::Rock
    } else if spec_victory(st) {
        GestureKind::Victory
    } else if spec_point(st) {
        GestureKind::Point
    } else if spec_thumb_up(n, st) {
        GestureKind::ThumbUp
    } else if spec_thumb_down(n, st) {
        GestureKind::ThumbDown
    } else if spec_fist(st) {
        GestureKind::Fist
    } else if spec_four(st) {
        GestureKind::Four
    } else if spec_open_palm(st) {
        GestureKind::OpenPalm
    } else if spec_three(st) {
        GestureKind::Three
    } else {
        GestureKind::Unknown
    }
}

/// How many of the five fingers are in state `s`; mirrors
/// `FingerStates::count`.
pub fn count_fingers(st: &FingerStates, s: FingerState) -> (r: u32)
    ensures
        r == st.count(s),
        r <= 5,
{
    let mut c: u32 = 0;
    if st.thumb == s {
        c = c + 1;
    }
    if st.index == s {
        c = c + 1;
    }
    if st.middle == s {
        c = c + 1;
    }
    if st.ring == s {
        c = c + 1;
    }
    if st.pinky == s {
        c = c + 1;
    }
    c
}

/// Select the primary gesture; mirrors `spec_detect_primary`, whose
/// priority order is part of the contract.
pub fn detect_primary_gesture(n: &Vec<Point3>, states: &FingerStates) -> (r: GestureKind)
    requires
        n@.len() >= 21,
        forall|i: int| 0 <= i < n@.len() ==> p3_in(#[trigger] n@[i], NORM_LIMIT as int),
    ensures
        r == spec_detect_primary(n@, *states),
{
    let extended_count = count_fingers(states, FingerState::Extended);
    let folded_count = count_fingers(states, FingerState::Folded);

    let thumb = states.thumb;
    let index = states.index;
    let middle = states.middle;
    let ring = states.ring;
    let pinky = states.pinky;

    let thumb_index_gap = dist3(n[4], n[8]);
    let thumb_middle_gap = dist3(n[4], n[12]);
    let wrist_y = n[0].y;
    let thumb_tip_y = n[4].y;

    let dy = thumb_tip_y - n[8].y;
    let tips_aligned = -80 < dy && dy < 80;

    let finger_heart = thumb_index_gap < 80 && folded_count >= 3 && matches!(
        index,
        FingerState::HalfBent | FingerState::Folded
    ) && matches!(thumb, FingerState::HalfBent | FingerState::Folded) && tips_aligned;

    let pinch_with_index = thumb_index_gap < 120 && matches!(
        middle,
        FingerState::Folded | FingerState::HalfBent
    ) && matches!(ring, FingerState::Folded | FingerState::HalfBent) && matches!(
        pinky,
        FingerState::Folded | FingerState::HalfBent
    );
    let pinch_with_middle = thumb_middle_gap < 120 && matches!(
        index,
        FingerState::Folded | FingerState::HalfBent
    ) && matches!(ring, FingerState::Folded | FingerState::HalfBent) && matches!(
        pinky,
        FingerState::Folded | FingerState::HalfBent
    );
    let pinch_like = pinch_with_index || pinch_with_middle;
    let ok_like = thumb_index_gap < 180 && (middle == FingerState::Extended || ring
        == FingerState::Extended);
    let ilove = matches!(thumb, FingerState::Extended | FingerState::HalfBent) && index
        == FingerState::Extended && middle != FingerState::Extended && ring
        != FingerState::Extended && pinky == FingerState::Extended;
    let rock = index == FingerState::Extended && pinky == FingerState::Extended && middle
        != FingerState::Extended && ring != FingerState::Extended && thumb == FingerState::Folded;
    let victory = index == FingerState::Extended && middle == FingerState::Extended && ring
        != FingerState::Extended && pinky != FingerState::Extended;
    let point = index == FingerState::Extended && middle != FingerState::Extended && ring
        != FingerState::Extended && pinky != FingerState::Extended;
    let three = index == FingerState::Extended && middle == FingerState::Extended && ring
        == FingerState::Extended && pinky != FingerState::Extended;
    let four = extended_count >= 4 && thumb != FingerState::Extended;
    let fist = folded_count >= 4;
    let open_palm = extended_count >= 4;

    let thumb_up = thumb == FingerState::Extended && folded_count >= 3 && thumb_tip_y + 80
        < wrist_y;
    let thumb_down = thumb == FingerState::Extended && folded_count >= 3 && thumb_tip_y > wrist_y
        + 80;

    if finger_heart {
        GestureKind::FingerHeart
    } else if pinch_like {
        GestureKind::Pinch
    } else if ok_like {
        GestureKind::OkSign
    } else if ilove {
        GestureKind::ILoveYou
    } else if rock {
        GestureKind::Rock
    } else if victory {
        GestureKind::Victory
    } else if point {
        GestureKind::Point
    } else if thumb_up {
        GestureKind::ThumbUp
    } else if thumb_down {
        GestureKind::ThumbDown
    } else if fist {
        GestureKind::Fist
    } else if four {
        GestureKind::Four
    } else if open_palm {
        GestureKind::OpenPalm
    } else if three {
        GestureKind::Three
    } else {
        GestureKind::Unknown
    }
}

/// The secondary guess, only offered when the primary is unknown:
/// mostly-extended reads as an open palm, mostly-folded as a fist, a
/// close thumb-to-index or thumb-to-middle gap as a pinch.
pub open spec fn spec_detect_secondary(st: FingerStates, n: Seq<Point3>, primary: GestureKind)
    -> Option<GestureKind> {
    if primary != GestureKind::Unknown {
        Option::None
    } else if st.extended_count() >= 4 {
        Option::Some(GestureKind::OpenPalm)
    } else if st.folded_count() >= 4 {
        Option::Some(GestureKind::Fist)
    } else if imin(spec_dist3(n[4], n[8]), spec_dist3(n[4], n[12])) < 140 {
        Option::Some(GestureKind::Pinch)
    } else {
        Option::None
    }
}

/// Secondary guess; mirrors `spec_detect_secondary`.
pub fn detect_secondary(states: &FingerStates, n: &Vec<Point3>, primary: GestureKind) -> (r:
    Option<GestureKind>)
    requires
        n@.len() >= 21,
        forall|i: int| 0 <= i < n@.len() ==> p3_in(#[trigger] n@[i], NORM_LIMIT as int),
    ensures
        r == spec_detect_secondary(*states, n@, primary),
{
    if primary != GestureKind::Unknown {
        return None;
    }
    let extended_count = count_fingers(states, FingerState::Extended);
    let folded_count = count_fingers(states, FingerState::Folded);
    if extended_count >= 4 {
        Some(GestureKind::OpenPalm)
    } else if folded_count >= 4 {
        Some(GestureKind::Fist)
    } else {
        let gap_index = dist3(n[4], n[8]);
        let gap_middle = dist3(n[4], n[12]);
        let gap = if gap_index < gap_middle {
            gap_index
        } else {
            gap_middle
        };
        if gap < 140 {
            Some(GestureKind::Pinch)
        } else {
            None
        }
    }
}

/// Handedness as a pure step function of the per-mille score.
pub open spec fn spec_handedness(score: u32) -> Handedness {
    if score >= 500 {
        Handedness::Right
    } else if score > 0 {
        Handedness::Left
    } else {
        Handedness::Unknown
    }
}

/// Map a handedness score to a label; mirrors `spec_handedness`: at or
/// above 500 per-mille the hand is right, above zero it is left, and at
/// exactly zero it is unknown.
pub fn handedness_from_score(score: u32) -> (r: Handedness)
    ensures
        r == spec_handedness(score),
        score >= 500 ==> r == Handedness::Right,
        0 < score < 500 ==> r == Handedness::Left,
        score == 0 ==> r == Handedness::Unknown,
{
    if score >= 500 {
        Handedness::Right
    } else if score > 0 {
        Handedness::Left
    } else {
        Handedness::Unknown
    }
}

/// Rank of a handedness value along the score axis.
pub open spec fn spec_handedness_rank(h: Handedness) -> int {
    match h {
        Handedness::Unknown => 0,
        Handedness::Left => 1,
        Handedness::Right => 2,
    }
}

/// The handedness mapping is a monotone step function of the score: a
/// higher score never maps to a lower-ranked hand, so there is no
/// hysteresis anywhere on the axis.
pub proof fn lemma_handedness_monotonic(s1: u32, s2: u32)
    requires
        s1 <= s2,
    ensures
        spec_handedness_rank(spec_handedness(s1)) <= spec_handedness_rank(spec_handedness(s2)),
{
}

/// The sample a classification at time `now` appends to the motion
/// history: the projected wrist and the projected hand span.
pub open spec fn spec_motion_sample(projected: Seq<Point2>, now: u64) -> MotionSample {
    MotionSample {
        time: now,
        x: projected[0].x,
        y: projected[0].y,
        span: spec_projected_span(projected) as i64,
    }
}

/// The gesture classifier: a pure decision table plus the one stateful
/// sub-component, the motion tracker.
pub struct GestureClassifier {
    pub motion_tracker: MotionTracker,
}

impl GestureClassifier {
    pub fn new() -> (r: GestureClassifier)
        ensures
            r.motion_tracker.history@.len() == 0,
            r.motion_tracker.wf(),
    {
        GestureClassifier { motion_tracker: MotionTracker::new() }
    }

    /// Classify one frame's landmarks. Returns no detail when the
    /// confidence is below the floor (exclusive) or fewer than 21 raw or
    /// projected points are present; in those cases the motion history is
    /// left untouched. Otherwise the detail is the decision table applied
    /// to the normalized landmarks, and the motion history advances by
    /// exactly this frame's wrist sample.
    pub fn classify(
        &mut self,
        raw_landmarks: &Vec<Point3>,
        projected_landmarks: &Vec<Point2>,
        confidence: u32,
        handedness_score: u32,
        timestamp: u64,
    ) -> (r: Option<GestureDetail>)
        requires
            old(self).motion_tracker.wf(),
            old(self).motion_tracker.latest_time() <= timestamp,
            forall|i: int|
                0 <= i < raw_landmarks@.len() ==> p3_in(#[trigger] raw_landmarks@[i],
                RAW_LIMIT as int),
            forall|i: int|
                0 <= i < projected_landmarks@.len() ==> p2_in(#[trigger] projected_landmarks@[i],
                PX_LIMIT as int),
        ensures
            confidence < MIN_CONFIDENCE ==> r is None && *final(self) == *old(self),
            confidence >= MIN_CONFIDENCE && (raw_landmarks@.len() < 21
                || projected_landmarks@.len() < 21) ==> r is None && *final(self) == *old(self),
            confidence >= MIN_CONFIDENCE && raw_landmarks@.len() >= 21
                && projected_landmarks@.len() >= 21 ==> {
                let n = spec_normalized(raw_landmarks@);
                let st = spec_finger_states(n);
                let primary = spec_detect_primary(n, st);
                &&& final(self).motion_tracker.history@ == spec_evict(
                    old(self).motion_tracker.history@.push(
                        spec_motion_sample(projected_landmarks@, timestamp),
                    ),
                    timestamp,
                )
                &&& r == Some(
                    GestureDetail {
                        primary,
                        secondary: spec_detect_secondary(st, n, primary),
                        handedness: spec_handedness(handedness_score),
                        finger_states: st,
                        motion: spec_motion_class(final(self).motion_tracker.history@, primary),
                    },
                )
            },
            final(self).motion_tracker.wf(),
            final(self).motion_tracker.latest_time() <= timestamp,
    {
        if confidence < MIN_CONFIDENCE {
            return None;
        }
        if raw_landmarks.len() < 21 || projected_landmarks.len() < 21 {
            return None;
        }

        let (normalized, _hand_span) = normalize_landmarks(raw_landmarks);
        let wrist_px = projected_landmarks[0];
        let span_px = projected_span(projected_landmarks);
        let finger_states = FingerStates {
            thumb: classify_thumb(&normalized),
            index: classify_finger(&normalized, 5, 6, 7, 8),
            middle: classify_finger(&normalized, 9, 10, 11, 12),
            ring: classify_finger(&normalized, 13, 14, 15, 16),
            pinky: classify_finger(&normalized, 17, 18, 19, 20),
        };

        let handedness = handedness_from_score(handedness_score);
        let primary = detect_primary_gesture(&normalized, &finger_states);
        let secondary = detect_secondary(&finger_states, &normalized, primary);
        let motion = self.motion_tracker.update(wrist_px, span_px, timestamp, primary);

        Some(
            GestureDetail {
                primary,
                secondary,
                handedness,
                finger_states,
                motion,
            },
        )
    }
}

/// The decision table is a fixed priority chain: a predicate decides the
/// primary gesture exactly when it holds and every predicate above it
/// fails, however many predicates below it also hold.
pub proof fn lemma_primary_priority(n: Seq<Point3>, st: FingerStates)
    ensures
        spec_finger_heart(n, st) ==> spec_detect_primary(n, st) == GestureKind::FingerHeart,
        !spec_finger_heart(n, st) && spec_pinch_like(n, st) ==> spec_detect_primary(n, st)
            == GestureKind::Pinch,
        !spec_finger_heart(n, st) && !spec_pinch_like(n, st) && spec_ok_like(n, st)
            ==> spec_detect_primary(n, st) == GestureKind::OkSign,
        !spec_finger_heart(n, st) && !spec_pinch_like(n, st) && !spec_ok_like(n, st)
            && spec_ilove(st) ==> spec_detect_primary(n, st) == GestureKind::ILoveYou,
        !spec_finger_heart(n, st) && !spec_pinch_like(n, st) && !spec_ok_like(n, st)
            && !spec_ilove(st) && spec_rock(st) ==> spec_detect_primary(n, st)
            == GestureKind::Rock,
        !spec_finger_heart(n, st) && !spec_pinch_like(n, st) && !spec_ok_like(n, st)
            && !spec_ilove(st) && !spec_rock(st) && spec_victory(st) ==> spec_detect_primary(
            n,
            st,
        ) == GestureKind::Victory,
        !spec_finger_heart(n, st) && !spec_pinch_like(n, st) && !spec_ok_like(n, st)
            && !spec_ilove(st) && !spec_rock(st) && !spec_victory(st) && spec_point(st)
            ==> spec_detect_primary(n, st) == GestureKind::Point,
        !spec_finger_heart(n, st) && !spec_pinch_like(n, st) && !spec_ok_like(n, st)
            && !spec_ilove(st) && !spec_rock(st) && !spec_victory(st) && !spec_point(st)
            && spec_thumb_up(n, st) ==> spec_detect_primary(n, st) == GestureKind::ThumbUp,
        !spec_finger_heart(n, st) && !spec_pinch_like(n, st) && !spec_ok_like(n, st)
            && !spec_ilove(st) && !spec_rock(st) && !spec_victory(st) && !spec_point(st)
            && !spec_thumb_up(n, st) && spec_thumb_down(n, st) ==> spec_detect_primary(n, st)
            == GestureKind::ThumbDown,
        !spec_finger_heart(n, st) && !spec_pinch_like(n, st) && !spec_ok_like(n, st)
            && !spec_ilove(st) && !spec_rock(st) && !spec_victory(st) && !spec_point(st)
            && !spec_thumb_up(n, st) && !spec_thumb_down(n, st) && spec_fist(st)
            ==> spec_detect_primary(n, st) == GestureKind::Fist,
        !spec_finger_heart(n, st) && !spec_pinch_like(n, st) && !spec_ok_like(n, st)
            && !spec_ilove(st) && !spec_rock(st) && !spec_victory(st) && !spec_point(st)
            && !spec_thumb_up(n, st) && !spec_thumb_down(n, st) && !spec_fist(st) && spec_four(st)
            ==> spec_detect_primary(n, st) == GestureKind::Four,
        !spec_finger_heart(n, st) && !spec_pinch_like(n, st) && !spec_ok_like(n, st)
            && !spec_ilove(st) && !spec_rock(st) && !spec_victory(st) && !spec_point(st)
            && !spec_thumb_up(n, st) && !spec_thumb_down(n, st) && !spec_fist(st) && !spec_four(
            st,
        ) && spec_open_palm(st) ==> spec_detect_primary(n, st) == GestureKind::OpenPalm,
        !spec_finger_heart(n, st) && !spec_pinch_like(n, st) && !spec_ok_like(n, st)
            && !spec_ilove(st) && !spec_rock(st) && !spec_victory(st) && !spec_point(st)
            && !spec_thumb_up(n, st) && !spec_thumb_down(n, st) && !spec_fist(st) && !spec_four(
            st,
        ) && !spec_open_palm(st) && spec_three(st) ==> spec_detect_primary(n, st)
            == GestureKind::Three,
        !spec_finger_heart(n, st) && !spec_pinch_like(n, st) && !spec_ok_like(n, st)
            && !spec_ilove(st) && !spec_rock(st) && !spec_victory(st) && !spec_point(st)
            && !spec_thumb_up(n, st) && !spec_thumb_down(n, st) && !spec_fist(st) && !spec_four(
            st,
        ) && !spec_open_palm(st) && !spec_three(st) ==> spec_detect_primary(n, st)
            == GestureKind::Unknown,
{
}

} // verus!
