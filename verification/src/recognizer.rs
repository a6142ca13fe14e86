//! The recognition worker: landmark decoding, effective-confidence
//! combination, per-frame result building, and the worker loop that
//! drives an inference engine over the frame channel.
use vstd::prelude::*;
use vstd::string::StringExecFns;

use crate::channel::{channel_try_send, recv_latest_frame};
use crate::geom::{p2_in, p3_in, spec_projected_span, LM_LIMIT, PX_LIMIT, RAW_LIMIT};
use crate::gesture::{spec_detect_primary, spec_detect_secondary, spec_finger_states,
    spec_handedness, spec_motion_sample, spec_normalized, GestureClassifier, MIN_CONFIDENCE};
use crate::motion::{spec_evict, spec_motion_class};
use crate::types::{spec_display_name, spec_emoji, Frame, GestureDetail, GestureResult,
    PalmRegion, Point2, Point3, RecognizedFrame};

verus! {

/// Damping applied to the effective confidence when the crop came from
/// the tracker fallback instead of a fresh detection: 9/10.
pub const FALLBACK_DAMPING_NUM: u64 = 900;

pub const FALLBACK_DAMPING_DEN: u64 = 1000;

/// Why a model output could not be decoded.
#[derive(Clone, Copy, Debug, PartialEq, Eq, Structural)]
pub enum DecodeError {
    /// The first output tensor held fewer than 63 values.
    TooFewValues,
    /// A coordinate fell outside the fixed-point crop domain.
    OutOfRange,
}

/// A recoverable per-frame inference failure.
#[derive(Clone, Debug)]
pub struct EngineError {
    pub message: String,
}

/// What one inference cycle produces.
#[derive(Clone, Debug)]
pub struct HandposeOutput {
    /// 21 crop-space landmarks, milli-units.
    pub raw_landmarks: Vec<Point3>,
    /// The same landmarks projected to frame milli-pixels.
    pub projected_landmarks: Vec<Point2>,
    /// Effective confidence, per-mille.
    pub confidence: u32,
    /// Handedness score, per-mille.
    pub handedness: u32,
    /// The palm candidates of this cycle, for the overlay.
    pub palm_regions: Vec<PalmRegion>,
}

/// The inference-engine capability the worker is polymorphic over: one
/// concrete implementation is chosen at startup.
pub trait HandposeEngine {
    fn infer(&mut self, frame: &Frame) -> Result<HandposeOutput, EngineError>;
}

/// Whether every value of a decoded landmark tensor is in the crop
/// domain.
pub open spec fn spec_values_in_range(values: Seq<i64>) -> bool {
    forall|i: int| 0 <= i < 63 ==> -LM_LIMIT <= #[trigger] values[i] <= LM_LIMIT
}

/// Whether a tensor decodes at all: enough values, all in domain.
pub open spec fn spec_decodes(values: Seq<i64>) -> bool {
    values.len() >= 63 && spec_values_in_range(values)
}

/// The landmark a decoded tensor holds at index `i`: consecutive
/// x, y, z triplets.
pub open spec fn spec_decoded_point(values: Seq<i64>, i: int) -> Point3 {
    Point3 { x: values[3 * i], y: values[3 * i + 1], z: values[3 * i + 2] }
}

/// Decode the first output tensor into exactly 21 ordered 3D points.
/// Fails on fewer than 63 values, or on a coordinate outside the
/// fixed-point crop domain (a malformed output).
pub fn decode_landmarks(values: &Vec<i64>) -> (r: Result<Vec<Point3>, DecodeError>)
    ensures
        r is Ok <==> spec_decodes(values@),
        values@.len() < 63 ==> r == Result::<Vec<Point3>, DecodeError>::Err(
            DecodeError::TooFewValues,
        ),
        values@.len() >= 63 && !spec_values_in_range(values@) ==> r == Result::<
            Vec<Point3>,
            DecodeError,
        >::Err(DecodeError::OutOfRange),
        r matches Ok(pts) ==> pts@.len() == 21 && forall|i: int|
            0 <= i < 21 ==> #[trigger] pts@[i] == spec_decoded_point(values@, i) && p3_in(
                pts@[i],
                LM_LIMIT as int,
            ),
{
    if values.len() < 63 {
        return Err(DecodeError::TooFewValues);
    }
    let mut k: usize = 0;
    while k < 63
        invariant
            0 <= k <= 63,
            values@.len() >= 63,
            forall|i: int| 0 <= i < k ==> -LM_LIMIT <= #[trigger] values@[i] <= LM_LIMIT,
        decreases 63 - k,
    {
        let v = values[k];
        if v < -LM_LIMIT || v > LM_LIMIT {
            return Err(DecodeError::OutOfRange);
        }
        k = k + 1;
    }
    let mut pts: Vec<Point3> = Vec::new();
    let mut i: usize = 0;
    while i < 21
        invariant
            0 <= i <= 21,
            values@.len() >= 63,
            spec_values_in_range(values@),
            pts@.len() == i,
            forall|j: int|
                0 <= j < i ==> #[trigger] pts@[j] == spec_decoded_point(values@, j) && p3_in(
                    pts@[j],
                    LM_LIMIT as int,
                ),
        decreases 21 - i,
    {
        let p = Point3 { x: values[3 * i], y: values[3 * i + 1], z: values[3 * i + 2] };
        pts.push(p);
        i = i + 1;
    }
    Ok(pts)
}

/// The effective confidence: the model confidence multiplied by the
/// detection prior, clamped to certainty, then damped by 9/10 when the
/// crop came from the tracker fallback.
pub open spec fn spec_combine_confidence(model: u32, prior: u32, fallback: bool) -> int {
    let c = crate::geom::imin((model as int) * (prior as int) / 1000, 1000);
    if fallback {
        c * 900 / 1000
    } else {
        c
    }
}

/// Combine model confidence with the detection prior; mirrors
/// `spec_combine_confidence`.
pub fn combine_confidence(model: u32, prior: u32, fallback: bool) -> (r: u32)
    requires
        prior <= 1000,
    ensures
        r == spec_combine_confidence(model, prior, fallback),
        r <= 1000,
{
    proof {
        assert(0 <= (model as int) * (prior as int) <= 4_294_967_295_000) by (nonlinear_arith)
            requires
                0 <= model <= 4_294_967_295,
                0 <= prior <= 1000,
        ;
    }
    let scaled: u64 = (model as u64) * (prior as u64) / 1000;
    let clamped: u64 = if scaled > 1000 {
        1000
    } else {
        scaled
    };
    let damped: u64 = if fallback {
        clamped * FALLBACK_DAMPING_NUM / FALLBACK_DAMPING_DEN
    } else {
        clamped
    };
    damped as u32
}

/// Whether an engine's output is inside the fixed-point domain the
/// classifier and tracker are specified over.
pub open spec fn spec_valid_output(out: HandposeOutput) -> bool {
    &&& forall|i: int|
        0 <= i < out.raw_landmarks@.len() ==> p3_in(#[trigger] out.raw_landmarks@[i],
        RAW_LIMIT as int)
    &&& forall|i: int|
        0 <= i < out.projected_landmarks@.len() ==> p2_in(#[trigger] out.projected_landmarks@[i],
        PX_LIMIT as int)
    &&& forall|i: int| 0 <= i < out.palm_regions@.len() ==> (#[trigger] out.palm_regions@[i]).wf()
    &&& out.confidence <= 1000
}

/// Check an engine's output against the fixed-point domain; mirrors
/// `spec_valid_output`. The worker skips a frame whose output fails
/// this, as it would a decode failure.
pub fn validate_output(out: &HandposeOutput) -> (r: bool)
    ensures
        r == spec_valid_output(*out),
{
    if out.confidence > 1000 {
        return false;
    }
    let mut i: usize = 0;
    while i < out.raw_landmarks.len()
        invariant
            0 <= i <= out.raw_landmarks@.len(),
            forall|j: int|
                0 <= j < i ==> p3_in(#[trigger] out.raw_landmarks@[j], RAW_LIMIT as int),
        decreases out.raw_landmarks@.len() - i,
    {
        let p = out.raw_landmarks[i];
        if p.x < -RAW_LIMIT || p.x > RAW_LIMIT || p.y < -RAW_LIMIT || p.y > RAW_LIMIT || p.z
            < -RAW_LIMIT || p.z > RAW_LIMIT {
            return false;
        }
        i = i + 1;
    }
    let mut j: usize = 0;
    while j < out.projected_landmarks.len()
        invariant
            0 <= j <= out.projected_landmarks@.len(),
            forall|k: int|
                0 <= k < j ==> p2_in(#[trigger] out.projected_landmarks@[k], PX_LIMIT as int),
        decreases out.projected_landmarks@.len() - j,
    {
        let p = out.projected_landmarks[j];
        if p.x < -PX_LIMIT || p.x > PX_LIMIT || p.y < -PX_LIMIT || p.y > PX_LIMIT {
            return false;
        }
        j = j + 1;
    }
    let mut k: usize = 0;
    while k < out.palm_regions.len()
        invariant
            0 <= k <= out.palm_regions@.len(),
            forall|m: int| 0 <= m < k ==> (#[trigger] out.palm_regions@[m]).wf(),
        decreases out.palm_regions@.len() - k,
    {
        let reg = &out.palm_regions[k];
        if reg.score > 1000 || reg.bbox[0] < -100_000_000 || reg.bbox[0] > reg.bbox[2]
            || reg.bbox[2] > 100_000_000 || reg.bbox[1] < -100_000_000 || reg.bbox[1]
            > reg.bbox[3] || reg.bbox[3] > 100_000_000 {
            return false;
        }
        k = k + 1;
    }
    true
}

/// The label a classified frame shows: the primary gesture's emoji
/// followed by its display name.
pub open spec fn spec_detail_label(primary: crate::types::GestureKind) -> Seq<char> {
    spec_emoji(primary) + spec_display_name(primary)
}

/// Build the per-frame gesture result. Below the confidence floor the
/// frame reads "no hand" and carries no landmarks; above it the
/// landmarks are attached, and when 21 raw and projected points are
/// present the classifier's full detail and its label are attached too.
pub fn build_gesture_result(
    output: HandposeOutput,
    frame: &Frame,
    classifier: &mut GestureClassifier,
) -> (r: GestureResult)
    requires
        old(classifier).motion_tracker.wf(),
        old(classifier).motion_tracker.latest_time() <= frame.timestamp,
        spec_valid_output(output),
    ensures
        r.confidence == output.confidence,
        r.timestamp == frame.timestamp,
        r.palm_regions == output.palm_regions,
        final(classifier).motion_tracker.wf(),
        final(classifier).motion_tracker.latest_time() <= frame.timestamp,
        output.confidence < MIN_CONFIDENCE ==> r.detail is None && r.landmarks is None
            && r.label@ == "未检测到手"@ && *final(classifier) == *old(classifier),
        output.confidence >= MIN_CONFIDENCE ==> r.landmarks == Some(output.projected_landmarks),
        output.confidence >= MIN_CONFIDENCE && (output.raw_landmarks@.len() < 21
            || output.projected_landmarks@.len() < 21) ==> r.detail is None && r.label@
            == "检测到手"@ && *final(classifier) == *old(classifier),
        output.confidence >= MIN_CONFIDENCE && output.raw_landmarks@.len() >= 21
            && output.projected_landmarks@.len() >= 21 ==> {
            let n = spec_normalized(output.raw_landmarks@);
            let st = spec_finger_states(n);
            let primary = spec_detect_primary(n, st);
            &&& final(classifier).motion_tracker.history@ == spec_evict(
                old(classifier).motion_tracker.history@.push(
                    spec_motion_sample(output.projected_landmarks@, frame.timestamp),
                ),
                frame.timestamp,
            )
            &&& r.detail == Some(
                GestureDetail {
                    primary,
                    secondary: spec_detect_secondary(st, n, primary),
                    handedness: spec_handedness(output.handedness),
                    finger_states: st,
                    motion: spec_motion_class(final(classifier).motion_tracker.history@, primary),
                },
            )
            &&& r.label@ == spec_detail_label(primary)
        },
{
    let has_detection = output.confidence >= MIN_CONFIDENCE;
    let detail = if has_detection {
        classifier.classify(
            &output.raw_landmarks,
            &output.projected_landmarks,
            output.confidence,
            output.handedness,
            frame.timestamp,
        )
    } else {
        None
    };

    let label: String = match &detail {
        Some(d) => String::from_str(d.primary.emoji()).concat(d.primary.display_name()),
        None => {
            if has_detection {
                String::from_str("检测到手")
            } else {
                String::from_str("未检测到手")
            }
        },
    };

    GestureResult {
        label,
        confidence: output.confidence,
        timestamp: frame.timestamp,
        landmarks: if has_detection {
            Some(output.projected_landmarks)
        } else {
            None
        },
        detail,
        palm_regions: output.palm_regions,
    }
}

/// Drive one engine over the frame channel: always process the newest
/// available frame, classify, and offer the result downstream without
/// ever blocking on a slow consumer. Ends when the producer disconnects
/// or the cycle budget runs out; inference failures and out-of-domain
/// outputs skip the frame, never the loop.
pub fn run_worker_loop<E: HandposeEngine>(
    engine: &mut E,
    frame_rx: &crossbeam_channel::Receiver<Frame>,
    result_tx: &crossbeam_channel::Sender<RecognizedFrame>,
    max_cycles: u64,
) {
    let mut classifier = GestureClassifier::new();
    let mut last_ts: u64 = 0;
    let mut cycles: u64 = max_cycles;
    while cycles > 0
        invariant
            classifier.motion_tracker.wf(),
            classifier.motion_tracker.latest_time() <= last_ts,
        decreases cycles,
    {
        let frame = match recv_latest_frame(frame_rx) {
            Some(f) => f,
            None => {
                return ;
            },
        };
        let ts = if frame.timestamp > last_ts {
            frame.timestamp
        } else {
            last_ts
        };
        match engine.infer(&frame) {
            Ok(output) => {
                if validate_output(&output) {
                    let clocked = Frame {
                        rgba: frame.rgba,
                        width: frame.width,
                        height: frame.height,
                        timestamp: ts,
                    };
                    let gesture = build_gesture_result(output, &clocked, &mut classifier);
                    let recognized = RecognizedFrame { frame: clocked, result: gesture };
                    let _ = channel_try_send(result_tx, recognized);
                    last_ts = ts;
                }
            },
            Err(_) => {},
        }
        cycles = cycles - 1;
    }
}

/// Which inference backend drives the recognizer, with the model file it
/// loads.
#[derive(Clone, Debug)]
pub enum RecognizerBackend {
    Tract { model_path: String },
    Ort { model_path: String },
}

/// The model path a backend loads.
pub open spec fn spec_backend_model_path(b: RecognizerBackend) -> Seq<char> {
    match b {
        RecognizerBackend::Tract { model_path } => model_path@,
        RecognizerBackend::Ort { model_path } => model_path@,
    }
}

impl RecognizerBackend {
    pub fn model_path(&self) -> (r: String)
        ensures
            r@ == spec_backend_model_path(*self),
    {
        match self {
            RecognizerBackend::Tract { model_path } => model_path.clone(),
            RecognizerBackend::Ort { model_path } => model_path.clone(),
        }
    }

    pub fn label(&self) -> (r: &'static str)
        ensures
            *self matches RecognizerBackend::Tract { .. } ==> r@ == "tract"@,
            *self matches RecognizerBackend::Ort { .. } ==> r@ == "ort"@,
    {
        match self {
            RecognizerBackend::Tract { .. } => "tract",
            RecognizerBackend::Ort { .. } => "ort",
        }
    }
}

} // verus!
