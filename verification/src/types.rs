//! Data model of the recognition pipeline.
//!
//! Coordinates are fixed-point: an `i64` holds a length in milli-units
//! (1000 per unit). Projected landmark coordinates are milli-pixels of the
//! source frame; raw landmark coordinates are milli-units of the normalized
//! crop space. Confidence and handedness scores are per-mille in `0..=1000`.
//! Timestamps are milliseconds on a monotone clock.
use vstd::prelude::*;

verus! {

/// A 2D point in milli-units.
#[derive(Clone, Copy, Debug, PartialEq, Eq, Structural)]
pub struct Point2 {
    pub x: i64,
    pub y: i64,
}

/// A 3D point in milli-units; `z` is relative depth.
#[derive(Clone, Copy, Debug, PartialEq, Eq, Structural)]
pub struct Point3 {
    pub x: i64,
    pub y: i64,
    pub z: i64,
}

/// A raw pixel buffer (4 channels per pixel) with its capture timestamp.
#[derive(Clone, Debug)]
pub struct Frame {
    pub rgba: Vec<u8>,
    pub width: u32,
    pub height: u32,
    /// Capture time in milliseconds on a monotone clock.
    pub timestamp: u64,
}

/// A candidate palm bounding box with keypoints and a detection score.
#[derive(Clone, Debug)]
pub struct PalmRegion {
    /// Box corners in milli-pixels: `[min_x, min_y, max_x, max_y]`.
    pub bbox: [i64; 4],
    /// Detector keypoints in milli-pixels.
    pub landmarks: Vec<Point2>,
    /// Detection score, per-mille.
    pub score: u32,
}

impl PalmRegion {
    /// A well-formed region has an ordered box within machine bounds and a
    /// score in `0..=1000`.
    pub open spec fn wf(self) -> bool {
        &&& self.score <= 1000
        &&& -100_000_000 <= self.bbox[0] <= self.bbox[2] <= 100_000_000
        &&& -100_000_000 <= self.bbox[1] <= self.bbox[3] <= 100_000_000
    }

    /// Box area in squared milli-pixels.
    pub open spec fn spec_area(self) -> int {
        (self.bbox[2] - self.bbox[0]) * (self.bbox[3] - self.bbox[1])
    }
}

/// The classified outcome attached to one frame.
#[derive(Clone, Debug)]
pub struct GestureResult {
    pub label: String,
    /// Effective confidence, per-mille.
    pub confidence: u32,
    pub timestamp: u64,
    /// Landmarks projected to frame milli-pixels, when a hand was detected.
    pub landmarks: Option<Vec<Point2>>,
    pub detail: Option<GestureDetail>,
    pub palm_regions: Vec<PalmRegion>,
}

/// One frame together with its recognition result; produced once per
/// inference cycle and consumed exactly once by the compositor.
#[derive(Clone, Debug)]
pub struct RecognizedFrame {
    pub frame: Frame,
    pub result: GestureResult,
}

/// Which hand the landmark model believes it saw.
#[derive(Clone, Copy, Debug, PartialEq, Eq, Structural)]
pub enum Handedness {
    Left,
    Right,
    Unknown,
}

/// The label text of each handedness value.
pub open spec fn spec_handedness_label(h: Handedness) -> Seq<char> {
    match h {
        Handedness::Left => "左手"@,
        Handedness::Right => "右手"@,
        Handedness::Unknown => "未知"@,
    }
}

impl Handedness {
    pub fn label(&self) -> (r: &'static str)
        ensures
            r@ == spec_handedness_label(*self),
    {
        match self {
            Handedness::Left => "左手",
            Handedness::Right => "右手",
            Handedness::Unknown => "未知",
        }
    }
}

/// Per-finger flex state, derived from landmark geometry each cycle.
#[derive(Clone, Copy, Debug, PartialEq, Eq, Structural)]
pub enum FingerState {
    Extended,
    HalfBent,
    Folded,
}

/// The label text of each finger state.
pub open spec fn spec_finger_state_label(s: FingerState) -> Seq<char> {
    match s {
        FingerState::Extended => "伸直"@,
        FingerState::HalfBent => "半弯"@,
        FingerState::Folded => "弯曲"@,
    }
}

impl FingerState {
    pub fn label(&self) -> (r: &'static str)
        ensures
            r@ == spec_finger_state_label(*self),
    {
        match self {
            FingerState::Extended => "伸直",
            FingerState::HalfBent => "半弯",
            FingerState::Folded => "弯曲",
        }
    }
}

/// The closed set of primary gesture classifications.
#[derive(Clone, Copy, Debug, PartialEq, Eq, Structural)]
pub enum GestureKind {
    OpenPalm,
    Fist,
    Point,
    Victory,
    Three,
    Four,
    ThumbUp,
    ThumbDown,
    OkSign,
    Pinch,
    FingerHeart,
    ILoveYou,
    Rock,
    Unknown,
}

/// The display name of each gesture kind.
pub open spec fn spec_display_name(k: GestureKind) -> Seq<char> {
    match k {
        GestureKind::OpenPalm => "张开手掌"@,
        GestureKind::Fist => "握拳"@,
        GestureKind::Point => "指向"@,
        GestureKind::Victory => "剪刀手"@,
        GestureKind::Three => "三指"@,
        GestureKind::Four => "四指"@,
        GestureKind::ThumbUp => "大拇指向上"@,
        GestureKind::ThumbDown => "大拇指向下"@,
        GestureKind::OkSign => "OK"@,
        GestureKind::Pinch => "捏合 / kneading"@,
        GestureKind::FingerHeart => "比心"@,
        GestureKind::ILoveYou => "I ❤️ U"@,
        GestureKind::Rock => "摇滚"@,
        GestureKind::Unknown => "未知手势"@,
    }
}

/// The emoji of each gesture kind.
pub open spec fn spec_emoji(k: GestureKind) -> Seq<char> {
    match k {
        GestureKind::OpenPalm => "🖐 "@,
        GestureKind::Fist => "✊ "@,
        GestureKind::Point => "👉 "@,
        GestureKind::Victory => "✌️ "@,
        GestureKind::Three => "🤟 "@,
        GestureKind::Four => "🖖 "@,
        GestureKind::ThumbUp => "👍 "@,
        GestureKind::ThumbDown => "👎 "@,
        GestureKind::OkSign => "👌 "@,
        GestureKind::Pinch => "🤏 "@,
        GestureKind::FingerHeart => "🫰 "@,
        GestureKind::ILoveYou => "🤟 "@,
        GestureKind::Rock => "🤘 "@,
        GestureKind::Unknown => "⋯ "@,
    }
}

impl GestureKind {
    pub fn display_name(&self) -> (r: &'static str)
        ensures
            r@ == spec_display_name(*self),
    {
        match self {
            GestureKind::OpenPalm => "张开手掌",
            GestureKind::Fist => "握拳",
            GestureKind::Point => "指向",
            GestureKind::Victory => "剪刀手",
            GestureKind::Three => "三指",
            GestureKind::Four => "四指",
            GestureKind::ThumbUp => "大拇指向上",
            GestureKind::ThumbDown => "大拇指向下",
            GestureKind::OkSign => "OK",
            GestureKind::Pinch => "捏合 / kneading",
            GestureKind::FingerHeart => "比心",
            GestureKind::ILoveYou => "I ❤️ U",
            GestureKind::Rock => "摇滚",
            GestureKind::Unknown => "未知手势",
        }
    }

    pub fn emoji(&self) -> (r: &'static str)
        ensures
            r@ == spec_emoji(*self),
    {
        match self {
            GestureKind::OpenPalm => "🖐 ",
            GestureKind::Fist => "✊ ",
            GestureKind::Point => "👉 ",
            GestureKind::Victory => "✌️ ",
            GestureKind::Three => "🤟 ",
            GestureKind::Four => "🖖 ",
            GestureKind::ThumbUp => "👍 ",
            GestureKind::ThumbDown => "👎 ",
            GestureKind::OkSign => "👌 ",
            GestureKind::Pinch => "🤏 ",
            GestureKind::FingerHeart => "🫰 ",
            GestureKind::ILoveYou => "🤟 ",
            GestureKind::Rock => "🤘 ",
            GestureKind::Unknown => "⋯ ",
        }
    }
}

/// The decimal digit characters.
pub open spec fn spec_digit_char(d: int) -> char {
    if d == 0 {
        '0'
    } else if d == 1 {
        '1'
    } else if d == 2 {
        '2'
    } else if d == 3 {
        '3'
    } else if d == 4 {
        '4'
    } else if d == 5 {
        '5'
    } else if d == 6 {
        '6'
    } else if d == 7 {
        '7'
    } else if d == 8 {
        '8'
    } else {
        '9'
    }
}

/// The decimal digits of `n`, most significant first, no leading zeros
/// (a single zero for zero).
pub open spec fn spec_dec(n: nat) -> Seq<char>
    decreases n,
{
    if n < 10 {
        seq![spec_digit_char(n as int)]
    } else {
        spec_dec(n / 10).push(spec_digit_char((n % 10) as int))
    }
}

/// One decimal digit as text.
fn digit_str(d: u32) -> (r: &'static str)
    requires
        d < 10,
    ensures
        r@ == seq![spec_digit_char(d as int)],
{
    proof {
        reveal_strlit("0");
        reveal_strlit("1");
        reveal_strlit("2");
        reveal_strlit("3");
        reveal_strlit("4");
        reveal_strlit("5");
        reveal_strlit("6");
        reveal_strlit("7");
        reveal_strlit("8");
        reveal_strlit("9");
    }
    if d == 0 {
        "0"
    } else if d == 1 {
        "1"
    } else if d == 2 {
        "2"
    } else if d == 3 {
        "3"
    } else if d == 4 {
        "4"
    } else if d == 5 {
        "5"
    } else if d == 6 {
        "6"
    } else if d == 7 {
        "7"
    } else if d == 8 {
        "8"
    } else {
        "9"
    }
}

/// The digit characters of a least-significant-first digit list, read
/// back most significant first.
pub open spec fn spec_rev_chars(ds: Seq<u32>) -> Seq<char>
    decreases ds.len(),
{
    if ds.len() == 0 {
        Seq::empty()
    } else {
        seq![spec_digit_char(ds.last() as int)] + spec_rev_chars(ds.drop_last())
    }
}

/// Render `n` in decimal; mirrors `spec_dec`.
pub fn u32_dec_string(n: u32) -> (r: String)
    ensures
        r@ == spec_dec(n as nat),
{
    let mut rest: u32 = n;
    let mut digits: Vec<u32> = Vec::new();
    proof {
        assert(spec_dec(n as nat) =~= spec_dec(rest as nat) + spec_rev_chars(digits@));
    }
    while rest >= 10
        invariant
            spec_dec(n as nat) == spec_dec(rest as nat) + spec_rev_chars(digits@),
            forall|i: int| 0 <= i < digits@.len() ==> #[trigger] digits@[i] < 10,
        decreases rest,
    {
        let ghost before = digits@;
        let d: u32 = rest % 10;
        digits.push(d);
        proof {
            assert(digits@.drop_last() =~= before);
            assert(digits@.last() == d);
            assert(spec_rev_chars(digits@) == seq![spec_digit_char(d as int)] + spec_rev_chars(
                before,
            ));
            assert(spec_dec((rest / 10) as nat) + spec_rev_chars(digits@) =~= (spec_dec(
                (rest / 10) as nat,
            ).push(spec_digit_char(((rest as nat) % 10) as int))) + spec_rev_chars(before));
        }
        rest = rest / 10;
    }
    let mut s = String::from_str(digit_str(rest));
    let mut k: usize = digits.len();
    proof {
        assert(digits@.take(k as int) =~= digits@);
        assert(s@ =~= spec_dec(rest as nat) + Seq::<char>::empty().take(0));
        assert(spec_dec(n as nat) =~= s@ + spec_rev_chars(digits@.take(k as int)));
    }
    while k > 0
        invariant
            k <= digits@.len(),
            forall|i: int| 0 <= i < digits@.len() ==> #[trigger] digits@[i] < 10,
            spec_dec(n as nat) == s@ + spec_rev_chars(digits@.take(k as int)),
        decreases k,
    {
        let ghost s_before = s@;
        let d = digits[k - 1];
        s.append(digit_str(d));
        proof {
            let t = digits@.take(k as int);
            assert(t.last() == digits@[k - 1]);
            assert(t.drop_last() =~= digits@.take(k - 1));
            assert(spec_rev_chars(t) == seq![spec_digit_char(d as int)] + spec_rev_chars(
                digits@.take(k - 1),
            ));
            assert(s_before + spec_rev_chars(t) =~= s@ + spec_rev_chars(digits@.take(k - 1)));
        }
        k = k - 1;
    }
    proof {
        assert(digits@.take(0) =~= Seq::<u32>::empty());
        assert(spec_dec(n as nat) =~= s@);
    }
    s
}

impl GestureResult {
    /// The percentage shown for a per-mille confidence, rounded half-up.
    pub open spec fn spec_percent(self) -> int {
        (self.confidence + 5) / 10
    }

    /// The caption of this result: the primary gesture's emoji and
    /// display name when a detail exists, the plain label otherwise,
    /// followed by the confidence as a percentage.
    pub fn display_text(&self) -> (r: String)
        ensures
            self.detail matches Some(d) ==> r@ == spec_emoji(d.primary) + spec_display_name(
                d.primary,
            ) + " ("@ + spec_dec(self.spec_percent() as nat) + "%)"@,
            self.detail is None ==> r@ == self.label@ + " ("@ + spec_dec(
                self.spec_percent() as nat,
            ) + "%)"@,
    {
        let whole: u32 = self.confidence / 10;
        let pct: u32 = if self.confidence % 10 >= 5 {
            whole + 1
        } else {
            whole
        };
        proof {
            assert(pct == (self.confidence + 5) / 10) by (nonlinear_arith)
                requires
                    whole == self.confidence / 10,
                    pct == (if self.confidence % 10 >= 5 {
                        (whole + 1) as int
                    } else {
                        whole as int
                    }),
            ;
        }
        let pct_text = u32_dec_string(pct);
        let r = match &self.detail {
            Some(d) => String::from_str(d.primary.emoji()).concat(d.primary.display_name()).concat(
                " (",
            ).concat(pct_text.as_str()).concat("%)"),
            None => self.label.clone().concat(" (").concat(pct_text.as_str()).concat("%)"),
        };
        r
    }
}

/// Temporal motion classification, an axis independent from `GestureKind`.
#[derive(Clone, Copy, Debug, PartialEq, Eq, Structural)]
pub enum GestureMotion {
    Steady,
    Fanning,
    VerticalWave,
    Moving,
}

/// The label text of each motion value.
pub open spec fn spec_motion_label(m: GestureMotion) -> Seq<char> {
    match m {
        GestureMotion::Steady => "保持"@,
        GestureMotion::Fanning => "左右扇动"@,
        GestureMotion::VerticalWave => "上下挥动"@,
        GestureMotion::Moving => "移动中"@,
    }
}

impl GestureMotion {
    pub fn label(&self) -> (r: &'static str)
        ensures
            r@ == spec_motion_label(*self),
    {
        match self {
            GestureMotion::Steady => "保持",
            GestureMotion::Fanning => "左右扇动",
            GestureMotion::VerticalWave => "上下挥动",
            GestureMotion::Moving => "移动中",
        }
    }
}

/// The flex state of all five fingers, thumb first.
#[derive(Clone, Copy, Debug, PartialEq, Eq, Structural)]
pub struct FingerStates {
    pub thumb: FingerState,
    pub index: FingerState,
    pub middle: FingerState,
    pub ring: FingerState,
    pub pinky: FingerState,
}

impl FingerStates {
    /// How many of the five fingers are in state `s`.
    pub open spec fn count(self, s: FingerState) -> int {
        (if self.thumb == s { 1int } else { 0 }) + (if self.index == s { 1int } else { 0 })
            + (if self.middle == s { 1int } else { 0 }) + (if self.ring == s { 1int } else { 0 })
            + (if self.pinky == s { 1int } else { 0 })
    }

    /// How many fingers are extended.
    pub open spec fn extended_count(self) -> int {
        self.count(FingerState::Extended)
    }

    /// How many fingers are folded.
    pub open spec fn folded_count(self) -> int {
        self.count(FingerState::Folded)
    }
}

/// The full classification of one frame's landmarks.
#[derive(Clone, Copy, Debug, PartialEq, Eq, Structural)]
pub struct GestureDetail {
    pub primary: GestureKind,
    pub secondary: Option<GestureKind>,
    pub handedness: Handedness,
    pub finger_states: FingerStates,
    pub motion: GestureMotion,
}

} // verus!
