//! Labels, decimal rendering, captions, and pixel expansion.
use handpose::camera::{format_camera_label, rgb_to_rgba};
use handpose::types::{
    u32_dec_string, FingerState, Frame, GestureDetail, GestureKind, GestureMotion,
    GestureResult, Handedness,
};

#[test]
fn enum_labels() {
    assert_eq!(Handedness::Left.label(), "左手");
    assert_eq!(Handedness::Right.label(), "右手");
    assert_eq!(Handedness::Unknown.label(), "未知");
    assert_eq!(FingerState::Extended.label(), "伸直");
    assert_eq!(FingerState::HalfBent.label(), "半弯");
    assert_eq!(FingerState::Folded.label(), "弯曲");
    assert_eq!(GestureMotion::Steady.label(), "保持");
    assert_eq!(GestureMotion::Fanning.label(), "左右扇动");
    assert_eq!(GestureMotion::VerticalWave.label(), "上下挥动");
    assert_eq!(GestureMotion::Moving.label(), "移动中");
    assert_eq!(GestureKind::OpenPalm.display_name(), "张开手掌");
    assert_eq!(GestureKind::OkSign.display_name(), "OK");
    assert_eq!(GestureKind::Unknown.display_name(), "未知手势");
    assert_eq!(GestureKind::ThumbUp.emoji(), "👍 ");
    assert_eq!(GestureKind::Fist.emoji(), "✊ ");
}

#[test]
fn decimal_rendering() {
    assert_eq!(u32_dec_string(0), "0");
    assert_eq!(u32_dec_string(7), "7");
    assert_eq!(u32_dec_string(10), "10");
    assert_eq!(u32_dec_string(100), "100");
    assert_eq!(u32_dec_string(12345), "12345");
    assert_eq!(u32_dec_string(u32::MAX), "4294967295");
}

fn result_with(confidence: u32, detail: Option<GestureDetail>) -> GestureResult {
    GestureResult {
        label: String::from("检测到手"),
        confidence,
        timestamp: 0,
        landmarks: None,
        detail,
        palm_regions: Vec::new(),
    }
}

#[test]
fn caption_without_detail() {
    let r = result_with(850, None);
    assert_eq!(r.display_text(), "检测到手 (85%)");
}

#[test]
fn caption_rounds_half_up() {
    let r = result_with(855, None);
    assert_eq!(r.display_text(), "检测到手 (86%)");
}

#[test]
fn caption_with_detail() {
    let d = GestureDetail {
        primary: GestureKind::OpenPalm,
        secondary: None,
        handedness: Handedness::Right,
        finger_states: handpose::types::FingerStates {
            thumb: FingerState::Extended,
            index: FingerState::Extended,
            middle: FingerState::Extended,
            ring: FingerState::Extended,
            pinky: FingerState::Extended,
        },
        motion: GestureMotion::Steady,
    };
    let r = result_with(900, Some(d));
    assert_eq!(r.display_text(), "🖐 张开手掌 (90%)");
}

#[test]
fn rgb_expansion() {
    let rgb = vec![1u8, 2, 3, 4, 5, 6];
    assert_eq!(rgb_to_rgba(&rgb), vec![1, 2, 3, 255, 4, 5, 6, 255]);
}

#[test]
fn rgb_expansion_drops_partial_pixel() {
    let rgb = vec![1u8, 2, 3, 4];
    assert_eq!(rgb_to_rgba(&rgb), vec![1, 2, 3, 255]);
}

#[test]
fn camera_labels() {
    assert_eq!(format_camera_label("Cam", "USB 2.0", "0"), "Cam (USB 2.0, #0)");
    assert_eq!(format_camera_label("Cam", "", "1"), "Cam (#1)");
    assert_eq!(format_camera_label("Cam", "N/A", "2"), "Cam (#2)");
}

#[test]
fn frame_fields_round_trip() {
    let f = Frame { rgba: vec![0u8; 8], width: 1, height: 2, timestamp: 9 };
    let g = f.clone();
    assert_eq!(g.width, 1);
    assert_eq!(g.height, 2);
    assert_eq!(g.timestamp, 9);
    assert_eq!(g.rgba.len(), 8);
}
