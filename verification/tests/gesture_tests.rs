//! Classifier behavior on synthetic landmark sets.
use handpose::gesture::{handedness_from_score, GestureClassifier};
use handpose::types::{GestureKind, GestureMotion, Handedness, Point2, Point3};

fn p3(x: i64, y: i64) -> Point3 {
    Point3 { x, y, z: 0 }
}

fn projected_for(raw: &[Point3]) -> Vec<Point2> {
    raw.iter().map(|p| Point2 { x: p.x * 2, y: p.y * 2 }).collect()
}

/// All fingers extended and spread; the bounding box spans exactly 1000
/// milli-units from (0, 0), so normalization leaves the set unchanged.
fn open_palm_set() -> Vec<Point3> {
    let mut pts = Vec::new();
    pts.push(p3(500, 1000)); // wrist
    // thumb: mcp, ip, a filler joint, tip
    pts.push(p3(350, 800));
    pts.push(p3(200, 700));
    pts.push(p3(100, 600));
    pts.push(p3(0, 550));
    // index, middle, ring, pinky: mcp, pip, dip, tip columns
    for x in [200i64, 400, 600, 800] {
        pts.push(p3(x, 600));
        pts.push(p3(x, 400));
        pts.push(p3(x, 200));
        pts.push(p3(x, 0));
    }
    pts
}

/// Thumb extended with its tip 0.1 units above the wrist, every other
/// finger folded back toward the wrist.
fn thumb_up_set() -> Vec<Point3> {
    let mut pts = Vec::new();
    pts.push(p3(500, 1000)); // wrist
    // thumb: mcp, ip, filler, tip 100 milli-units above the wrist
    pts.push(p3(433, 966));
    pts.push(p3(266, 933));
    pts.push(p3(180, 915));
    pts.push(p3(100, 900));
    // index folded, owning min_x = 0
    pts.push(p3(0, 500));
    pts.push(p3(0, 400));
    pts.push(p3(0, 480));
    pts.push(p3(0, 550));
    // middle folded high, owning min_y = 0
    pts.push(p3(400, 0));
    pts.push(p3(400, 60));
    pts.push(p3(400, 80));
    pts.push(p3(400, 100));
    // ring folded
    pts.push(p3(150, 500));
    pts.push(p3(150, 400));
    pts.push(p3(150, 480));
    pts.push(p3(150, 550));
    // pinky folded
    pts.push(p3(250, 500));
    pts.push(p3(250, 400));
    pts.push(p3(250, 480));
    pts.push(p3(250, 550));
    pts
}

/// Simultaneously pinch-like (thumb to middle) and ok-like (middle
/// extended, thumb near index): the pinch must win.
fn pinch_and_ok_set(thumb_tip: Point3) -> Vec<Point3> {
    let mut pts = Vec::new();
    pts.push(p3(500, 1000)); // wrist
    // thumb toward the middle fingertip
    pts.push(p3(480, 700));
    pts.push(p3(470, 400));
    pts.push(p3(460, 240));
    pts.push(thumb_tip);
    // index folded by a zig-zag chain, its tip near the thumb tip
    pts.push(p3(300, 450));
    pts.push(p3(330, 300));
    pts.push(p3(360, 350));
    pts.push(p3(350, 200));
    // middle extended straight up
    pts.push(p3(400, 600));
    pts.push(p3(400, 400));
    pts.push(p3(400, 200));
    pts.push(p3(400, 0));
    // ring folded
    pts.push(p3(600, 500));
    pts.push(p3(600, 400));
    pts.push(p3(600, 480));
    pts.push(p3(600, 550));
    // pinky folded
    pts.push(p3(700, 500));
    pts.push(p3(700, 400));
    pts.push(p3(700, 480));
    pts.push(p3(700, 550));
    pts
}

#[test]
fn too_few_points_is_no_detail() {
    let mut c = GestureClassifier::new();
    let raw: Vec<Point3> = open_palm_set().into_iter().take(20).collect();
    let proj = projected_for(&raw);
    let r = c.classify(&raw, &proj, 900, 500, 0);
    assert!(r.is_none());
}

#[test]
fn too_few_projected_is_no_detail() {
    let mut c = GestureClassifier::new();
    let raw = open_palm_set();
    let proj: Vec<Point2> = projected_for(&raw).into_iter().take(20).collect();
    let r = c.classify(&raw, &proj, 900, 500, 0);
    assert!(r.is_none());
}

#[test]
fn confidence_floor_is_inclusive() {
    let raw = open_palm_set();
    let proj = projected_for(&raw);
    let mut c = GestureClassifier::new();
    assert!(c.classify(&raw, &proj, 200, 500, 0).is_some());
    let mut c2 = GestureClassifier::new();
    assert!(c2.classify(&raw, &proj, 199, 500, 0).is_none());
}

#[test]
fn handedness_step_function() {
    assert_eq!(handedness_from_score(0), Handedness::Unknown);
    assert_eq!(handedness_from_score(300), Handedness::Left);
    assert_eq!(handedness_from_score(499), Handedness::Left);
    assert_eq!(handedness_from_score(500), Handedness::Right);
    assert_eq!(handedness_from_score(1000), Handedness::Right);
}

#[test]
fn open_palm_scenario() {
    let raw = open_palm_set();
    let proj = projected_for(&raw);
    let mut c = GestureClassifier::new();
    let mut last = None;
    for (i, t) in [0u64, 30, 60].iter().enumerate() {
        let r = c.classify(&raw, &proj, 900, 500, *t);
        let d = r.expect("expected a detail");
        assert_eq!(d.primary, GestureKind::OpenPalm);
        assert_eq!(d.handedness, Handedness::Right);
        if i == 2 {
            assert_eq!(d.motion, GestureMotion::Steady);
        }
        last = Some(d);
    }
    let d = last.unwrap();
    assert_eq!(d.secondary, None);
}

#[test]
fn thumb_up_scenario() {
    let raw = thumb_up_set();
    let proj = projected_for(&raw);
    let mut c = GestureClassifier::new();
    let d = c.classify(&raw, &proj, 800, 500, 0).expect("expected a detail");
    assert_eq!(d.primary, GestureKind::ThumbUp);
}

/// Half-bent columns that satisfy no primary predicate; the thumb tip's
/// distance to the index and middle tips decides the secondary guess.
fn half_bent_set(thumb_tip: Point3) -> Vec<Point3> {
    let mut pts = Vec::new();
    pts.push(p3(500, 1000)); // wrist
    // thumb reaching down toward the fingertips
    pts.push(p3(350, 850));
    pts.push(p3(240, 600));
    pts.push(p3(200, 450));
    pts.push(thumb_tip);
    // four half-bent columns: tips just past the pip joints
    for x in [0i64, 333, 666, 1000] {
        pts.push(p3(x, 600));
        pts.push(p3(x, 450));
        pts.push(p3(x, 380));
        pts.push(p3(x, 310));
    }
    pts
}

#[test]
fn unknown_primary_with_close_thumb_guesses_pinch() {
    let raw = half_bent_set(Point3 { x: 130, y: 310, z: 0 });
    let proj = projected_for(&raw);
    let mut c = GestureClassifier::new();
    let d = c.classify(&raw, &proj, 900, 500, 0).expect("expected a detail");
    assert_eq!(d.primary, GestureKind::Unknown);
    assert_eq!(d.secondary, Some(GestureKind::Pinch));
}

#[test]
fn unknown_primary_with_open_thumb_guesses_nothing() {
    let raw = half_bent_set(Point3 { x: 170, y: 310, z: 0 });
    let proj = projected_for(&raw);
    let mut c = GestureClassifier::new();
    let d = c.classify(&raw, &proj, 900, 500, 0).expect("expected a detail");
    assert_eq!(d.primary, GestureKind::Unknown);
    assert_eq!(d.secondary, None);
}

#[test]
fn pinch_beats_ok() {
    // Thumb tip close to the middle fingertip: both the pinch and the
    // ok predicates hold, and the pinch has priority.
    let raw = pinch_and_ok_set(Point3 { x: 450, y: 80, z: 0 });
    let proj = projected_for(&raw);
    let mut c = GestureClassifier::new();
    let d = c.classify(&raw, &proj, 900, 500, 0).expect("expected a detail");
    assert_eq!(d.primary, GestureKind::Pinch);
}

#[test]
fn ok_without_pinch() {
    // Thumb tip pulled away from the middle fingertip: the pinch gap
    // opens past its bound while the ok gap stays within its own.
    let raw = pinch_and_ok_set(Point3 { x: 450, y: 200, z: 0 });
    let proj = projected_for(&raw);
    let mut c = GestureClassifier::new();
    let d = c.classify(&raw, &proj, 900, 500, 0).expect("expected a detail");
    assert_eq!(d.primary, GestureKind::OkSign);
}
