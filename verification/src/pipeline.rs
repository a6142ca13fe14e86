//! One inference cycle around the opaque model call: choose the crop
//! (fresh detection first, tracker fallback second), and turn the
//! model's outputs into a recognized hand while refreshing the tracker.
use vstd::prelude::*;
use vstd::string::StringExecFns;

use crate::geom::{iclamp, p2_in, project_landmarks, spec_project_x, spec_project_y,
    CropTransform, CROP_LIMIT, PX_LIMIT};
use crate::palm::{crop_from_palm, pick_primary_region, spec_crop_from_palm, spec_primary_idx};
use crate::recognizer::{combine_confidence, decode_landmarks, spec_combine_confidence,
    spec_decoded_point, spec_decodes, spec_valid_output, DecodeError, HandposeOutput};
use crate::tracker::{spec_tracker_roi, HandTracker, RoiEstimate};
use crate::types::PalmRegion;

verus! {

/// The crop transform a tracker fallback region proposes, clamped into
/// the crop domain.
pub open spec fn spec_roi_transform(roi: RoiEstimate) -> CropTransform {
    CropTransform {
        cx: iclamp(roi.cx as int, -CROP_LIMIT as int, CROP_LIMIT as int) as i64,
        cy: iclamp(roi.cy as int, -CROP_LIMIT as int, CROP_LIMIT as int) as i64,
        side: iclamp(roi.side as int, 1, CROP_LIMIT as int) as i64,
        rot_cos: iclamp(roi.rot_cos as int, -1000, 1000) as i64,
        rot_sin: iclamp(roi.rot_sin as int, -1000, 1000) as i64,
    }
}

/// Choose the crop for this cycle: the primary fresh palm detection
/// when there is one, otherwise the tracker's fallback region while it
/// stays fresh. Returns the crop transform, the detection prior, and
/// whether the tracker fallback was used; `None` means no hand anywhere.
pub fn select_crop(palm_regions: &Vec<PalmRegion>, tracker: &HandTracker, now: u64) -> (r:
    Option<(CropTransform, u32, bool)>)
    requires
        forall|i: int| 0 <= i < palm_regions@.len() ==> (#[trigger] palm_regions@[i]).wf(),
        forall|i: int, j: int|
            0 <= i < palm_regions@.len() && 0 <= j < palm_regions@[i].landmarks@.len() ==> p2_in(
                #[trigger] palm_regions@[i].landmarks@[j],
                PX_LIMIT as int,
            ),
        tracker.wf(),
    ensures
        palm_regions@.len() > 0 ==> r == Some(
            (
                spec_crop_from_palm(palm_regions@[spec_primary_idx(palm_regions@)]),
                palm_regions@[spec_primary_idx(palm_regions@)].score,
                false,
            ),
        ),
        palm_regions@.len() == 0 && spec_tracker_roi(*tracker, now) is None ==> r is None,
        palm_regions@.len() == 0 ==> (spec_tracker_roi(*tracker, now) matches Some((roi, score))
            ==> r == Some((spec_roi_transform(roi), score, true))),
        r matches Some((t, prior, _)) ==> t.wf() && prior <= 1000,
{
    match pick_primary_region(palm_regions) {
        Some(idx) => {
            proof {
                crate::palm::lemma_primary_idx(palm_regions@);
                assert(idx as int == spec_primary_idx(palm_regions@));
            }
            let selected = &palm_regions[idx];
            let t = crop_from_palm(selected);
            proof {
                assert(*selected == palm_regions@[spec_primary_idx(palm_regions@)]);
                assert(t == spec_crop_from_palm(palm_regions@[spec_primary_idx(palm_regions@)]));
            }
            Some((t, selected.score, false))
        },
        None => {
            match tracker.estimate_roi(now) {
                Some((roi, score)) => {
                    let t = crate::geom::make_transform(
                        roi.cx,
                        roi.cy,
                        roi.side,
                        roi.rot_cos,
                        roi.rot_sin,
                    );
                    Some((t, score, true))
                },
                None => None,
            }
        },
    }
}

/// The output of a cycle that found no hand at all: empty landmark
/// lists, zero confidence, and the (empty or unselected) palm list for
/// the overlay.
pub fn empty_output(palm_regions: Vec<PalmRegion>) -> (r: HandposeOutput)
    ensures
        r.raw_landmarks@.len() == 0,
        r.projected_landmarks@.len() == 0,
        r.confidence == 0,
        r.handedness == 0,
        r.palm_regions == palm_regions,
{
    HandposeOutput {
        raw_landmarks: Vec::new(),
        projected_landmarks: Vec::new(),
        confidence: 0,
        handedness: 0,
        palm_regions,
    }
}

/// Finish one inference cycle from the model's raw outputs: decode the
/// 21 landmarks, project them back to frame pixels through the crop
/// transform, combine the confidences, and refresh the tracker. A
/// malformed tensor fails the cycle and leaves the tracker untouched.
pub fn finish_inference(
    values: &Vec<i64>,
    model_conf: u32,
    handedness: u32,
    transform: &CropTransform,
    prior: u32,
    fallback: bool,
    tracker: &mut HandTracker,
    now: u64,
    palm_regions: Vec<PalmRegion>,
) -> (r: Result<HandposeOutput, DecodeError>)
    requires
        transform.wf(),
        prior <= 1000,
        old(tracker).wf(),
        forall|i: int| 0 <= i < palm_regions@.len() ==> (#[trigger] palm_regions@[i]).wf(),
    ensures
        r is Ok <==> spec_decodes(values@),
        r is Err ==> *final(tracker) == *old(tracker) && final(tracker).wf(),
        values@.len() < 63 ==> (r matches Err(e) && e == DecodeError::TooFewValues),
        r matches Ok(out) ==> {
            &&& out.raw_landmarks@.len() == 21
            &&& forall|i: int|
                0 <= i < 21 ==> #[trigger] out.raw_landmarks@[i] == spec_decoded_point(values@, i)
            &&& out.projected_landmarks@.len() == 21
            &&& forall|i: int|
                0 <= i < 21 ==> #[trigger] out.projected_landmarks@[i].x == spec_project_x(
                    spec_decoded_point(values@, i),
                    *transform,
                ) && out.projected_landmarks@[i].y == spec_project_y(
                    spec_decoded_point(values@, i),
                    *transform,
                )
            &&& out.confidence == spec_combine_confidence(model_conf, prior, fallback)
            &&& out.handedness == handedness
            &&& out.palm_regions == palm_regions
            &&& spec_valid_output(out)
            &&& final(tracker).last matches Some(th) && th.transform == *transform
                && th.projected@ == out.projected_landmarks@ && th.confidence == out.confidence
                && th.last_seen == now
            &&& final(tracker).wf()
        },
{
    let landmarks = match decode_landmarks(values) {
        Ok(pts) => pts,
        Err(e) => {
            return Err(e);
        },
    };
    let projected = project_landmarks(&landmarks, transform);
    let confidence = combine_confidence(model_conf, prior, fallback);
    tracker.update(transform, &projected, confidence, now);
    Ok(
        HandposeOutput {
            raw_landmarks: landmarks,
            projected_landmarks: projected,
            confidence,
            handedness,
            palm_regions,
        },
    )
}

/// The model files the recognition worker loads: the palm detector and
/// the handpose estimator.
#[derive(Clone, Debug)]
pub struct RecognizerBackend {
    pub handpose_estimator_model_path: String,
    pub palm_detector_model_path: String,
}

impl RecognizerBackend {
    /// Where the handpose estimator model lives.
    pub open spec fn spec_handpose_path(self) -> Seq<char> {
        self.handpose_estimator_model_path@
    }

    /// Where the palm detector model lives.
    pub open spec fn spec_palm_path(self) -> Seq<char> {
        self.palm_detector_model_path@
    }

    pub fn new(handpose_estimator_model_path: String, palm_detector_model_path: String) -> (r:
        RecognizerBackend)
        ensures
            r.spec_handpose_path() == handpose_estimator_model_path@,
            r.spec_palm_path() == palm_detector_model_path@,
    {
        RecognizerBackend { handpose_estimator_model_path, palm_detector_model_path }
    }

    pub fn handpose_estimator_model_path(&self) -> (r: String)
        ensures
            r@ == self.spec_handpose_path(),
    {
        self.handpose_estimator_model_path.clone()
    }

    pub fn palm_detector_model_path(&self) -> (r: String)
        ensures
            r@ == self.spec_palm_path(),
    {
        self.palm_detector_model_path.clone()
    }

    pub fn backend_label(&self) -> (r: &'static str)
        ensures
            r@ == "ort"@,
    {
        "ort"
    }
}

} // verus!
