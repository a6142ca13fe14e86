//! Motion tracker behavior over synthetic trajectories.
use handpose::motion::MotionTracker;
use handpose::types::{GestureKind, GestureMotion, Point2};

fn p(x: i64, y: i64) -> Point2 {
    Point2 { x, y }
}

#[test]
fn same_point_never_moves() {
    let mut t = MotionTracker::new();
    for i in 0..10u64 {
        let m = t.update(p(5000, 7000), 2000, i * 50, GestureKind::OpenPalm);
        assert_eq!(m, GestureMotion::Steady);
    }
}

#[test]
fn same_point_never_moves_with_large_span() {
    let mut t = MotionTracker::new();
    for i in 0..6u64 {
        let m = t.update(p(0, 0), 200_000_000, i * 100, GestureKind::Unknown);
        assert_eq!(m, GestureMotion::Steady);
    }
}

#[test]
fn oscillating_x_with_open_palm_is_fanning() {
    let mut t = MotionTracker::new();
    let xs = [0i64, 2000, 0, 2000];
    let mut last = GestureMotion::Steady;
    for (i, x) in xs.iter().enumerate() {
        last = t.update(p(*x, 500), 2000, (i as u64) * 100, GestureKind::OpenPalm);
    }
    assert_eq!(last, GestureMotion::Fanning);
}

#[test]
fn oscillating_x_with_fist_is_not_fanning() {
    let mut t = MotionTracker::new();
    let xs = [0i64, 2000, 0, 2000];
    let mut last = GestureMotion::Steady;
    for (i, x) in xs.iter().enumerate() {
        last = t.update(p(*x, 500), 2000, (i as u64) * 100, GestureKind::Fist);
    }
    // The horizontal span is still large, so the motion reads as moving,
    // but never as fanning without an open-hand-like primary gesture.
    assert_eq!(last, GestureMotion::Moving);
}

#[test]
fn oscillating_y_is_vertical_wave() {
    let mut t = MotionTracker::new();
    let ys = [0i64, 2000, 0, 2000];
    let mut last = GestureMotion::Steady;
    for (i, y) in ys.iter().enumerate() {
        last = t.update(p(500, *y), 2000, (i as u64) * 100, GestureKind::Fist);
    }
    assert_eq!(last, GestureMotion::VerticalWave);
}

#[test]
fn slow_drift_is_moving() {
    let mut t = MotionTracker::new();
    let xs = [0i64, 300, 600];
    let mut last = GestureMotion::Steady;
    for (i, x) in xs.iter().enumerate() {
        last = t.update(p(*x, 500), 2000, (i as u64) * 100, GestureKind::OpenPalm);
    }
    assert_eq!(last, GestureMotion::Moving);
}

#[test]
fn old_samples_are_evicted() {
    let mut t = MotionTracker::new();
    t.update(p(0, 0), 2000, 0, GestureKind::OpenPalm);
    t.update(p(2000, 0), 2000, 100, GestureKind::OpenPalm);
    // 1300 ms later both earlier samples are outside the 1200 ms window,
    // so the history restarts and two fresh samples cannot classify as
    // anything but steady.
    let m1 = t.update(p(0, 0), 2000, 1400, GestureKind::OpenPalm);
    assert_eq!(m1, GestureMotion::Steady);
    let m2 = t.update(p(2000, 0), 2000, 1450, GestureKind::OpenPalm);
    assert_eq!(m2, GestureMotion::Steady);
}

#[test]
fn under_three_samples_is_steady() {
    let mut t = MotionTracker::new();
    let m1 = t.update(p(0, 0), 2000, 0, GestureKind::OpenPalm);
    let m2 = t.update(p(2000, 2000), 2000, 50, GestureKind::OpenPalm);
    assert_eq!(m1, GestureMotion::Steady);
    assert_eq!(m2, GestureMotion::Steady);
}
