//! Hand tracker round-trip, staleness boundary, and orientation.
use handpose::geom::CropTransform;
use handpose::tracker::{estimate_orientation_from_landmarks, HandTracker};
use handpose::types::Point2;

fn p(x: i64, y: i64) -> Point2 {
    Point2 { x, y }
}

fn upright_transform() -> CropTransform {
    CropTransform { cx: 500_000, cy: 500_000, side: 400_000, rot_cos: 1000, rot_sin: 0 }
}

/// 21 projected landmarks spanning a 200 x 300 pixel box.
fn landmark_box() -> Vec<Point2> {
    let mut pts = Vec::new();
    pts.push(p(400_000, 700_000)); // wrist at the box's bottom corner
    for i in 1..21i64 {
        let x = 400_000 + (i % 5) * 50_000;
        let y = 400_000 + (i / 5) * 75_000;
        pts.push(p(x, y));
    }
    pts
}

#[test]
fn round_trip_returns_box_region() {
    let mut tr = HandTracker::new();
    let proj = landmark_box();
    tr.update(&upright_transform(), &proj, 800, 1000);
    let (roi, conf) = tr.estimate_roi(1100).expect("fresh estimate expected");
    assert_eq!(conf, 800);
    // Center is the bounding-box midpoint: x in [400k, 600k], y in [400k, 700k].
    assert_eq!(roi.cx, 500_000);
    assert_eq!(roi.cy, 550_000);
    // Side is at least the expanded span: span 300k, times 1.8.
    assert!(roi.side >= 300_000 * 9 / 5);
}

#[test]
fn staleness_boundary_is_inclusive() {
    let mut tr = HandTracker::new();
    let proj = landmark_box();
    tr.update(&upright_transform(), &proj, 800, 1000);
    // Exactly at the 450 ms threshold: stale, nothing returned.
    assert!(tr.estimate_roi(1450).is_none());
    // One millisecond before the threshold: still fresh.
    let mut tr2 = HandTracker::new();
    tr2.update(&upright_transform(), &proj, 800, 1000);
    assert!(tr2.estimate_roi(1449).is_some());
}

#[test]
fn confidence_floor_is_strict() {
    let proj = landmark_box();
    let mut low = HandTracker::new();
    low.update(&upright_transform(), &proj, 149, 1000);
    assert!(low.estimate_roi(1000).is_none());
    let mut at = HandTracker::new();
    at.update(&upright_transform(), &proj, 150, 1000);
    assert!(at.estimate_roi(1000).is_some());
}

#[test]
fn empty_projection_clears_the_slot() {
    let mut tr = HandTracker::new();
    tr.update(&upright_transform(), &landmark_box(), 800, 1000);
    tr.update(&upright_transform(), &Vec::new(), 800, 1100);
    assert!(tr.estimate_roi(1100).is_none());
}

#[test]
fn under_three_points_gives_no_region() {
    let mut tr = HandTracker::new();
    let proj = vec![p(0, 0), p(100_000, 100_000)];
    tr.update(&upright_transform(), &proj, 800, 1000);
    assert!(tr.estimate_roi(1000).is_none());
}

#[test]
fn upright_hand_has_identity_rotation() {
    // Index and pinky roots straight above the wrist: the axis points up,
    // which is the untransformed orientation.
    let mut pts = vec![p(500_000, 800_000)];
    for i in 1..21i64 {
        let x = if i == 5 {
            400_000
        } else if i == 17 {
            600_000
        } else {
            500_000
        };
        pts.push(p(x, 200_000 + i * 1000));
    }
    let (c, s) = estimate_orientation_from_landmarks(&pts).expect("orientation expected");
    assert_eq!(c, 1000);
    assert_eq!(s, 0);
}

#[test]
fn degenerate_axis_has_no_orientation() {
    // Index and pinky midpoint exactly on the wrist.
    let mut pts = vec![p(500_000, 500_000)];
    for i in 1..21i64 {
        let x = if i == 5 {
            400_000
        } else if i == 17 {
            600_000
        } else {
            500_000
        };
        let y = 500_000;
        pts.push(p(x, y));
    }
    assert!(estimate_orientation_from_landmarks(&pts).is_none());
}
