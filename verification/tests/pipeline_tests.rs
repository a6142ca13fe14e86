//! Decode, confidence combination, region selection, suppression, and
//! the worker loop over real channels.
use handpose::channel::recv_latest_frame;
use handpose::geom::CropTransform;
use handpose::palm::{crop_from_palm, pick_primary_region, suppress_overlaps};
use handpose::pipeline::{empty_output, finish_inference, select_crop, RecognizerBackend};
use handpose::recognizer::{
    combine_confidence, decode_landmarks, run_worker_loop, DecodeError, EngineError,
    HandposeEngine, HandposeOutput,
};
use handpose::tracker::HandTracker;
use handpose::types::{Frame, PalmRegion, Point2, Point3, RecognizedFrame};

fn region(bbox: [i64; 4], score: u32) -> PalmRegion {
    PalmRegion { bbox, landmarks: Vec::new(), score }
}

#[test]
fn decode_exact_triplets() {
    let mut values = Vec::new();
    for i in 0..63i64 {
        values.push(i % 1000);
    }
    let pts = decode_landmarks(&values).expect("decode expected");
    assert_eq!(pts.len(), 21);
    assert_eq!(pts[0], Point3 { x: 0, y: 1, z: 2 });
    assert_eq!(pts[20], Point3 { x: 60, y: 61, z: 62 });
}

#[test]
fn decode_too_few_values() {
    let values = vec![0i64; 62];
    assert_eq!(decode_landmarks(&values), Err(DecodeError::TooFewValues));
}

#[test]
fn decode_out_of_range_value() {
    let mut values = vec![0i64; 63];
    values[10] = 2001;
    assert_eq!(decode_landmarks(&values), Err(DecodeError::OutOfRange));
}

#[test]
fn confidence_combination() {
    assert_eq!(combine_confidence(800, 500, false), 400);
    assert_eq!(combine_confidence(800, 500, true), 360);
    // The product is clamped to certainty before damping.
    assert_eq!(combine_confidence(4000, 1000, false), 1000);
    assert_eq!(combine_confidence(4000, 1000, true), 900);
    assert_eq!(combine_confidence(0, 1000, false), 0);
}

#[test]
fn primary_region_prefers_score_then_area() {
    let regions = vec![
        region([0, 0, 10_000, 10_000], 700),
        region([0, 0, 50_000, 50_000], 900),
        region([0, 0, 90_000, 90_000], 900),
    ];
    // Equal top scores: the larger box wins.
    assert_eq!(pick_primary_region(&regions), Some(2));
    let by_score = vec![
        region([0, 0, 90_000, 90_000], 100),
        region([0, 0, 10_000, 10_000], 800),
    ];
    assert_eq!(pick_primary_region(&by_score), Some(1));
    assert_eq!(pick_primary_region(&Vec::new()), None);
}

#[test]
fn suppression_drops_heavy_overlap() {
    let a = region([0, 0, 100_000, 100_000], 900);
    let b = region([10_000, 10_000, 110_000, 110_000], 800); // mostly inside a
    let c = region([500_000, 500_000, 600_000, 600_000], 700); // far away
    let kept = suppress_overlaps(vec![a, b, c]);
    assert_eq!(kept.len(), 2);
    assert_eq!(kept[0].score, 900);
    assert_eq!(kept[1].score, 700);
}

#[test]
fn crop_from_palm_expands_box() {
    let r = region([100_000, 200_000, 300_000, 500_000], 900);
    let t = crop_from_palm(&r);
    assert_eq!(t.cx, 200_000);
    assert_eq!(t.cy, 350_000);
    // The larger side (300k) expanded 1.8 times.
    assert_eq!(t.side, 540_000);
    assert_eq!((t.rot_cos, t.rot_sin), (1000, 0));
}

#[test]
fn select_crop_prefers_detection_over_tracker() {
    let mut tracker = HandTracker::new();
    let regions = vec![region([0, 0, 200_000, 200_000], 800)];
    let (t, prior, fallback) =
        select_crop(&regions, &tracker, 0).expect("detection expected");
    assert_eq!(prior, 800);
    assert!(!fallback);
    assert_eq!(t.cx, 100_000);

    // Feed the tracker, then remove the detection: the fallback serves.
    let proj: Vec<Point2> = (0..21)
        .map(|i| Point2 { x: 100_000 + i * 10_000, y: 200_000 + i * 5_000 })
        .collect();
    tracker.update(&t, &proj, 600, 1000);
    let (_t2, prior2, fallback2) =
        select_crop(&Vec::new(), &tracker, 1100).expect("fallback expected");
    assert_eq!(prior2, 600);
    assert!(fallback2);

    // Stale tracker and no detection: no crop at all.
    assert!(select_crop(&Vec::new(), &tracker, 2000).is_none());
}

#[test]
fn finish_inference_projects_and_tracks() {
    let transform = CropTransform {
        cx: 112_000,
        cy: 112_000,
        side: 224_000,
        rot_cos: 1000,
        rot_sin: 0,
    };
    let mut values = vec![500i64; 63];
    // First landmark at the crop center, second at the right edge.
    values[3] = 1000;
    let mut tracker = HandTracker::new();
    let out = finish_inference(
        &values,
        900,
        600,
        &transform,
        1000,
        false,
        &mut tracker,
        42,
        Vec::new(),
    )
    .expect("inference expected");
    assert_eq!(out.projected_landmarks.len(), 21);
    assert_eq!(out.projected_landmarks[0], Point2 { x: 112_000, y: 112_000 });
    assert_eq!(out.projected_landmarks[1], Point2 { x: 224_000, y: 112_000 });
    assert_eq!(out.confidence, 900);
    assert_eq!(out.handedness, 600);
    // The tracker was refreshed by this decode.
    assert!(tracker.estimate_roi(42).is_some());

    // A malformed tensor leaves the tracker untouched.
    let bad = vec![0i64; 10];
    let r = finish_inference(
        &bad,
        900,
        600,
        &transform,
        1000,
        false,
        &mut tracker,
        99,
        Vec::new(),
    );
    assert_eq!(r.unwrap_err(), DecodeError::TooFewValues);
    assert!(tracker.estimate_roi(99).is_some());
}

#[test]
fn candidate_selection_filters_then_suppresses() {
    let weak = region([0, 0, 100_000, 100_000], 499);
    let strong = region([0, 0, 100_000, 100_000], 900);
    let overlapping = region([10_000, 10_000, 110_000, 110_000], 600);
    let kept = handpose::palm::select_palm_candidates(vec![weak, strong, overlapping]);
    // The weak candidate falls to the score floor, the overlapping one
    // to suppression against the strong survivor.
    assert_eq!(kept.len(), 1);
    assert_eq!(kept[0].score, 900);
}

#[test]
fn crop_extraction_identity_and_letterbox() {
    // A 2 x 2 frame with distinct pixels; an unrotated crop centered on
    // the frame with the frame's own side samples it back, and a crop
    // centered far outside letterboxes to black.
    let rgba = vec![
        10u8, 11, 12, 255, 20, 21, 22, 255, //
        30, 31, 32, 255, 40, 41, 42, 255,
    ];
    let frame = Frame { rgba, width: 2, height: 2, timestamp: 0 };
    let t = CropTransform { cx: 1000, cy: 1000, side: 2000, rot_cos: 1000, rot_sin: 0 };
    let crop = handpose::crop::extract_rotated_crop(&frame, &t, 2);
    assert_eq!(crop, vec![10, 11, 12, 20, 21, 22, 30, 31, 32, 40, 41, 42]);

    let away = CropTransform { cx: 9_000_000, cy: 9_000_000, side: 2000, rot_cos: 1000, rot_sin: 0 };
    let black = handpose::crop::extract_rotated_crop(&frame, &away, 2);
    assert_eq!(black, vec![0u8; 12]);
}

#[test]
fn empty_output_has_no_hand() {
    let out = empty_output(vec![region([0, 0, 1000, 1000], 100)]);
    assert_eq!(out.confidence, 0);
    assert!(out.raw_landmarks.is_empty());
    assert_eq!(out.palm_regions.len(), 1);
}

#[test]
fn backend_paths_round_trip() {
    let b = RecognizerBackend::new(String::from("hand.onnx"), String::from("palm.onnx"));
    assert_eq!(b.handpose_estimator_model_path(), "hand.onnx");
    assert_eq!(b.palm_detector_model_path(), "palm.onnx");
    assert_eq!(b.backend_label(), "ort");
    let e = handpose::recognizer::RecognizerBackend::Tract {
        model_path: String::from("m.onnx"),
    };
    assert_eq!(e.model_path(), "m.onnx");
    assert_eq!(e.label(), "tract");
}

#[test]
fn recv_latest_drains_to_newest() {
    let (tx, rx) = crossbeam_channel::bounded(4);
    let frame = |t: u64| Frame { rgba: Vec::new(), width: 0, height: 0, timestamp: t };
    tx.send(frame(1)).unwrap();
    tx.send(frame(2)).unwrap();
    tx.send(frame(3)).unwrap();
    let got = recv_latest_frame(&rx).expect("frame expected");
    assert_eq!(got.timestamp, 3);
    drop(tx);
    assert!(recv_latest_frame(&rx).is_none());
}

#[test]
fn gesture_result_with_detail_is_labeled() {
    // An open palm: wrist low, thumb to the left, four straight columns.
    let mut raw = vec![Point3 { x: 500, y: 1000, z: 0 }];
    for (x, y) in [(350i64, 800i64), (200, 700), (100, 600), (0, 550)] {
        raw.push(Point3 { x, y, z: 0 });
    }
    for x in [200i64, 400, 600, 800] {
        for y in [600i64, 400, 200, 0] {
            raw.push(Point3 { x, y, z: 0 });
        }
    }
    let projected: Vec<Point2> = raw.iter().map(|p| Point2 { x: p.x, y: p.y }).collect();
    let output = HandposeOutput {
        raw_landmarks: raw,
        projected_landmarks: projected,
        confidence: 900,
        handedness: 700,
        palm_regions: Vec::new(),
    };
    let frame = Frame { rgba: Vec::new(), width: 0, height: 0, timestamp: 3 };
    let mut classifier = handpose::gesture::GestureClassifier::new();
    let result = handpose::recognizer::build_gesture_result(output, &frame, &mut classifier);
    assert_eq!(result.label, "🖐 张开手掌");
    assert_eq!(result.confidence, 900);
    assert!(result.landmarks.is_some());
    let detail = result.detail.expect("detail expected");
    assert_eq!(detail.primary, handpose::types::GestureKind::OpenPalm);
    assert_eq!(detail.handedness, handpose::types::Handedness::Right);
}

struct FixedEngine {
    conf: u32,
}

impl HandposeEngine for FixedEngine {
    fn infer(&mut self, _frame: &Frame) -> Result<HandposeOutput, EngineError> {
        Ok(HandposeOutput {
            raw_landmarks: Vec::new(),
            projected_landmarks: Vec::new(),
            confidence: self.conf,
            handedness: 0,
            palm_regions: Vec::new(),
        })
    }
}

#[test]
fn worker_loop_forwards_results() {
    let (frame_tx, frame_rx) = crossbeam_channel::bounded::<Frame>(1);
    let (result_tx, result_rx) = crossbeam_channel::bounded::<RecognizedFrame>(1);
    frame_tx
        .send(Frame { rgba: Vec::new(), width: 0, height: 0, timestamp: 5 })
        .unwrap();
    drop(frame_tx);
    let mut engine = FixedEngine { conf: 100 };
    run_worker_loop(&mut engine, &frame_rx, &result_tx, 10);
    let recognized = result_rx.try_recv().expect("result expected");
    assert_eq!(recognized.frame.timestamp, 5);
    assert_eq!(recognized.result.confidence, 100);
    // Below the classification floor the frame reads as "no hand".
    assert_eq!(recognized.result.label, "未检测到手");
    assert!(recognized.result.detail.is_none());
}
