//! Cadence control convergence and overlay gating.
use handpose::compositor::{adjust_interval, compose_frame, overlay_points, CompositedFrame};
use handpose::types::{Frame, GestureResult, PalmRegion, Point2};

const MIN_I: u64 = 33;
const MAX_I: u64 = 83;

#[test]
fn sustained_load_grows_interval_to_max_then_holds() {
    let mut interval = MIN_I;
    let mut prev = interval;
    for _ in 0..8 {
        interval = adjust_interval(interval, 100, MIN_I, MAX_I, false);
        assert!(interval >= prev);
        assert!(interval <= MAX_I);
        prev = interval;
    }
    assert_eq!(interval, MAX_I);
    assert_eq!(adjust_interval(MAX_I, 100, MIN_I, MAX_I, false), MAX_I);
}

#[test]
fn backpressure_grows_interval() {
    let grown = adjust_interval(40, 0, MIN_I, MAX_I, true);
    assert_eq!(grown, 50); // 40 * 5 / 4
    assert!(grown > 40);
}

#[test]
fn light_load_shrinks_interval_to_min_then_holds() {
    let mut interval = MAX_I;
    let mut prev = interval;
    for _ in 0..12 {
        interval = adjust_interval(interval, 10, MIN_I, MAX_I, false);
        assert!(interval <= prev);
        assert!(interval >= MIN_I);
        prev = interval;
    }
    assert_eq!(interval, MIN_I);
    assert_eq!(adjust_interval(MIN_I, 10, MIN_I, MAX_I, false), MIN_I);
}

#[test]
fn comfortable_band_holds_interval() {
    // compose 30, interval 40: 30 * 3 >= 40 * 2, and 30 <= 40.
    assert_eq!(adjust_interval(40, 30, MIN_I, MAX_I, false), 40);
}

#[test]
fn exact_shrink_steps() {
    assert_eq!(adjust_interval(83, 0, MIN_I, MAX_I, false), 70); // 83 * 17 / 20
    assert_eq!(adjust_interval(70, 0, MIN_I, MAX_I, false), 59);
    assert_eq!(adjust_interval(35, 0, MIN_I, MAX_I, false), 33); // floored at min
}

fn result_with(confidence: u32, landmarks: Option<Vec<Point2>>) -> GestureResult {
    GestureResult {
        label: String::from("x"),
        confidence,
        timestamp: 0,
        landmarks,
        detail: None,
        palm_regions: Vec::new(),
    }
}

#[test]
fn overlay_needs_both_confidence_and_landmarks() {
    let pts = vec![Point2 { x: 0, y: 0 }];
    assert!(overlay_points(&result_with(500, Some(pts.clone()))).is_some());
    assert!(overlay_points(&result_with(499, Some(pts.clone()))).is_none());
    assert!(overlay_points(&result_with(900, None)).is_none());
}

#[test]
fn compose_preserves_buffer_shape() {
    let width = 4u32;
    let height = 3u32;
    let frame = Frame {
        rgba: vec![10u8; (width * height * 4) as usize],
        width,
        height,
        timestamp: 77,
    };
    let region = PalmRegion {
        bbox: [1000, 1000, 3000, 2000],
        landmarks: Vec::new(),
        score: 900,
    };
    let mut result = result_with(900, Some(vec![Point2 { x: 1000, y: 1000 }]));
    result.palm_regions.push(region);
    let recognized = handpose::types::RecognizedFrame { frame, result };
    let composed: CompositedFrame = compose_frame(recognized);
    assert_eq!(composed.frame.rgba.len(), (width * height * 4) as usize);
    assert_eq!(composed.frame.timestamp, 77);
    assert_eq!(composed.result.confidence, 900);
    // The marker at pixel (1, 1) was painted.
    let idx = ((1 * width + 1) * 4) as usize;
    assert_eq!(composed.frame.rgba[idx + 3], 255);
    assert_ne!(composed.frame.rgba[idx], 10);
}

#[test]
fn red_blue_swap() {
    let rgba = vec![1u8, 2, 3, 4, 5, 6, 7, 8, 9];
    assert_eq!(
        handpose::compositor::swap_red_blue(&rgba),
        vec![3, 2, 1, 4, 7, 6, 5, 8, 9]
    );
}

#[test]
fn out_of_frame_points_are_ignored() {
    let frame = Frame { rgba: vec![0u8; 16], width: 2, height: 2, timestamp: 0 };
    let result = result_with(
        900,
        Some(vec![Point2 { x: 99_000_000, y: -99_000_000 }]),
    );
    let recognized = handpose::types::RecognizedFrame { frame, result };
    let composed = compose_frame(recognized);
    assert_eq!(composed.frame.rgba, vec![0u8; 16]);
}
