//! Temporal motion detection: a time-bounded queue of wrist positions and
//! hand scales, classified into steady / fanning / waving / moving.
use std::collections::VecDeque;

use vstd::prelude::*;

use crate::geom::{imax, lemma_bbox2, max_x2, max_y2, min_x2, min_y2, PX_LIMIT};
use crate::types::{GestureKind, GestureMotion, Point2};

verus! {

/// Samples older than this window, in milliseconds, are evicted.
pub const MOTION_WINDOW_MS: u64 = 1200;

/// One observation of the wrist: time, position in milli-pixels, and the
/// hand's projected span in milli-pixels.
#[derive(Clone, Copy, Debug, PartialEq, Eq, Structural)]
pub struct MotionSample {
    pub time: u64,
    pub x: i64,
    pub y: i64,
    pub span: i64,
}

/// Age of a sample at `now`, saturating at zero for clocks that ran
/// backwards.
pub open spec fn spec_age(t: u64, now: u64) -> int {
    if now >= t {
        now - t
    } else {
        0
    }
}

/// Drop samples from the front while they are older than the motion
/// window.
pub open spec fn spec_evict(s: Seq<MotionSample>, now: u64) -> Seq<MotionSample>
    decreases s.len(),
{
    if s.len() == 0 {
        s
    } else if spec_age(s[0].time, now) > MOTION_WINDOW_MS {
        spec_evict(s.drop_first(), now)
    } else {
        s
    }
}

/// The wrist positions of a sample history.
pub open spec fn spec_positions(s: Seq<MotionSample>) -> Seq<Point2> {
    s.map_values(|m: MotionSample| Point2 { x: m.x, y: m.y })
}

/// Total of the stored spans.
pub open spec fn spec_sum_span(s: Seq<MotionSample>) -> int
    decreases s.len(),
{
    if s.len() == 0 {
        0
    } else {
        spec_sum_span(s.drop_last()) + s.last().span
    }
}

pub proof fn lemma_sum_span_bounds(s: Seq<MotionSample>)
    requires
        forall|i: int| 0 <= i < s.len() ==> 1000 <= #[trigger] s[i].span <= 200_000_000,
    ensures
        s.len() * 1000 <= spec_sum_span(s) <= s.len() * 200_000_000,
    decreases s.len(),
{
    if s.len() > 0 {
        let d = s.drop_last();
        assert(forall|i: int| 0 <= i < d.len() ==> #[trigger] d[i] == s[i]);
        lemma_sum_span_bounds(d);
        assert(s.last() == s[s.len() - 1]);
    }
}

/// Number of direction reversals along a value sequence, ignoring steps
/// smaller than `min_step`, together with the sign of the last counted
/// step: `(changes, last_sign)`.
pub open spec fn spec_dir_state(vals: Seq<i64>, min_step: int) -> (int, int)
    decreases vals.len(),
{
    if vals.len() <= 1 {
        (0, 0)
    } else {
        let prev = spec_dir_state(vals.drop_last(), min_step);
        let delta = vals.last() - vals[vals.len() - 2];
        if -min_step < delta < min_step {
            prev
        } else {
            let sgn: int = if delta > 0 {
                1
            } else {
                -1
            };
            if prev.1 != 0 && sgn != prev.1 {
                (prev.0 + 1, sgn)
            } else {
                (prev.0, sgn)
            }
        }
    }
}

pub open spec fn spec_dir_changes(vals: Seq<i64>, min_step: int) -> int {
    spec_dir_state(vals, min_step).0
}

/// The x values of the samples.
pub open spec fn spec_xs(s: Seq<MotionSample>) -> Seq<i64> {
    s.map_values(|m: MotionSample| m.x)
}

/// The y values of the samples.
pub open spec fn spec_ys(s: Seq<MotionSample>) -> Seq<i64> {
    s.map_values(|m: MotionSample| m.y)
}

/// Average stored span, floored at one pixel.
pub open spec fn spec_motion_norm(h: Seq<MotionSample>) -> int {
    imax(spec_sum_span(h) / h.len() as int, 1000)
}

/// A primary gesture that keeps the palm open enough to fan.
pub open spec fn spec_open_like(primary: GestureKind) -> bool {
    primary == GestureKind::OpenPalm || primary == GestureKind::Four || primary
        == GestureKind::Unknown
}

/// Motion classification of a sample history: spans normalized by the
/// average hand scale, with direction reversals counted per axis.
pub open spec fn spec_motion_class(h: Seq<MotionSample>, primary: GestureKind) -> GestureMotion {
    if h.len() < 3 {
        GestureMotion::Steady
    } else {
        let norm = spec_motion_norm(h);
        let pts = spec_positions(h);
        let span_x = (max_x2(pts) - min_x2(pts)) * 1000 / norm;
        let span_y = (max_y2(pts) - min_y2(pts)) * 1000 / norm;
        let min_step = norm * 80 / 1000;
        let changes_x = spec_dir_changes(spec_xs(h), min_step);
        let changes_y = spec_dir_changes(spec_ys(h), min_step);
        if span_x > 550 && changes_x >= 2 && spec_open_like(primary) {
            GestureMotion::Fanning
        } else if span_y > 550 && changes_y >= 2 {
            GestureMotion::VerticalWave
        } else if span_x > 250 || span_y > 250 {
            GestureMotion::Moving
        } else {
            GestureMotion::Steady
        }
    }
}

/// A history whose samples all sit on one point classifies as `Steady`,
/// whatever the sample count, the spans, and the primary gesture: the
/// normalized motion spans are zero, so fanning, waving and moving are
/// all ruled out.
pub proof fn lemma_same_point_is_steady(h: Seq<MotionSample>, primary: GestureKind)
    requires
        forall|i: int| 0 <= i < h.len() ==> (#[trigger] h[i]).x == h[0].x && h[i].y == h[0].y,
    ensures
        spec_motion_class(h, primary) == GestureMotion::Steady,
{
    if h.len() >= 3 {
        let pts = spec_positions(h);
        assert(forall|i: int|
            0 <= i < pts.len() ==> #[trigger] pts[i] == (Point2 { x: h[i].x, y: h[i].y }));
        assert(forall|i: int|
            0 <= i < pts.len() ==> (#[trigger] pts[i]).x == pts[0].x && pts[i].y == pts[0].y);
        lemma_bbox2(pts);
        let kx0 = choose|k: int| 0 <= k < pts.len() && #[trigger] pts[k].x == min_x2(pts);
        let kx1 = choose|k: int| 0 <= k < pts.len() && #[trigger] pts[k].x == max_x2(pts);
        let ky0 = choose|k: int| 0 <= k < pts.len() && #[trigger] pts[k].y == min_y2(pts);
        let ky1 = choose|k: int| 0 <= k < pts.len() && #[trigger] pts[k].y == max_y2(pts);
        assert(max_x2(pts) == min_x2(pts));
        assert(max_y2(pts) == min_y2(pts));
        let norm = spec_motion_norm(h);
        assert(norm >= 1000);
        assert(0int * 1000 / norm == 0) by {
            vstd::arithmetic::div_mod::lemma_div_of0(norm);
        }
    }
}

/// A sequence evicted from the front is a suffix of the original.
pub proof fn lemma_evict_is_suffix(s: Seq<MotionSample>, now: u64)
    ensures
        exists|k: int| 0 <= k <= s.len() && spec_evict(s, now) == s.skip(k),
    decreases s.len(),
{
    if s.len() == 0 {
        assert(s.skip(0) =~= s);
        assert(spec_evict(s, now) == s.skip(0));
    } else if spec_age(s[0].time, now) > MOTION_WINDOW_MS {
        lemma_evict_is_suffix(s.drop_first(), now);
        let k = choose|k: int|
            0 <= k <= s.drop_first().len() && spec_evict(s.drop_first(), now) == s.drop_first().skip(
                k,
            );
        assert(s.drop_first().skip(k) =~= s.skip(k + 1));
        assert(spec_evict(s, now) == s.skip(k + 1));
    } else {
        assert(s.skip(0) =~= s);
        assert(spec_evict(s, now) == s.skip(0));
    }
}

/// Feeding the same point again, whatever the history's age structure,
/// still classifies as `Steady` when every stored sample already sits on
/// that point: the window update never invents motion.
pub proof fn lemma_repeat_point_is_steady(
    h: Seq<MotionSample>,
    sample: MotionSample,
    now: u64,
    primary: GestureKind,
)
    requires
        forall|i: int| 0 <= i < h.len() ==> (#[trigger] h[i]).x == sample.x && h[i].y == sample.y,
    ensures
        spec_motion_class(spec_evict(h.push(sample), now), primary) == GestureMotion::Steady,
{
    let pushed = h.push(sample);
    assert(forall|i: int|
        0 <= i < pushed.len() ==> (#[trigger] pushed[i]).x == sample.x && pushed[i].y
            == sample.y);
    lemma_evict_is_suffix(pushed, now);
    let k = choose|k: int| 0 <= k <= pushed.len() && spec_evict(pushed, now) == pushed.skip(k);
    let e = spec_evict(pushed, now);
    assert(forall|i: int| 0 <= i < e.len() ==> #[trigger] e[i] == pushed[i + k]);
    assert(forall|i: int| 0 <= i < e.len() ==> #[trigger] e[i].x == sample.x && e[i].y == sample.y);
    if e.len() > 0 {
        assert(e[0] == pushed[k]);
        assert forall|i: int|
            0 <= i < e.len() implies (#[trigger] e[i]).x == e[0].x && e[i].y == e[0].y by {
            assert(e[i] == pushed[i + k]);
            assert(pushed[i + k].x == sample.x && pushed[i + k].y == sample.y);
        }
        lemma_same_point_is_steady(e, primary);
    }
}

/// Count of direction reversals; mirrors `spec_dir_changes`.
fn direction_changes(vals: &Vec<i64>, min_step: i64) -> (r: usize)
    requires
        min_step >= 0,
        forall|i: int| 0 <= i < vals@.len() ==> -PX_LIMIT <= #[trigger] vals@[i] <= PX_LIMIT,
    ensures
        r == spec_dir_changes(vals@, min_step as int),
{
    let mut changes: usize = 0;
    let mut last_sign: i64 = 0;
    if vals.len() <= 1 {
        proof {
            assert(spec_dir_state(vals@, min_step as int) == (0int, 0int));
        }
        return 0;
    }
    let mut i: usize = 1;
    while i < vals.len()
        invariant
            1 <= i <= vals@.len(),
            vals@.len() >= 2,
            min_step >= 0,
            forall|j: int| 0 <= j < vals@.len() ==> -PX_LIMIT <= #[trigger] vals@[j] <= PX_LIMIT,
            changes <= i,
            spec_dir_state(vals@.take(i as int), min_step as int) == (changes as int,
            last_sign as int),
        decreases vals@.len() - i,
    {
        proof {
            assert(vals@.take(i + 1).drop_last() =~= vals@.take(i as int));
            assert(vals@.take(i + 1).last() == vals@[i as int]);
            assert(vals@.take(i + 1)[i - 1] == vals@[i - 1]);
        }
        let delta: i64 = vals[i] - vals[i - 1];
        if delta > -min_step && delta < min_step {
        } else {
            let sgn: i64 = if delta > 0 {
                1
            } else {
                -1
            };
            if last_sign != 0 && sgn != last_sign {
                changes = changes + 1;
            }
            last_sign = sgn;
        }
        i = i + 1;
    }
    proof {
        assert(vals@.take(vals@.len() as int) =~= vals@);
    }
    changes
}

/// The sliding-window motion tracker; one instance lives for the lifetime
/// of a recognition worker.
pub struct MotionTracker {
    pub history: VecDeque<MotionSample>,
}

impl MotionTracker {
    /// Times never decrease along the queue and every stored sample is in
    /// the fixed-point domain.
    pub open spec fn wf(self) -> bool {
        &&& forall|i: int|
            0 <= i < self.history@.len() - 1 ==> #[trigger] self.history@[i].time
                <= self.history@[i + 1].time
        &&& forall|i: int|
            0 <= i < self.history@.len() ==> 1000 <= #[trigger] self.history@[i].span
                <= 200_000_000 && -PX_LIMIT <= self.history@[i].x <= PX_LIMIT && -PX_LIMIT
                <= self.history@[i].y <= PX_LIMIT
    }

    /// The newest stored time, or zero when empty.
    pub open spec fn latest_time(self) -> u64 {
        if self.history@.len() == 0 {
            0
        } else {
            self.history@.last().time
        }
    }

    pub fn new() -> (r: MotionTracker)
        ensures
            r.history@.len() == 0,
            r.wf(),
    {
        MotionTracker { history: VecDeque::new() }
    }

    /// Record one wrist observation, evict samples older than the motion
    /// window, and classify the remaining trajectory.
    pub fn update(&mut self, point: Point2, span: i64, now: u64, primary: GestureKind) -> (r:
        GestureMotion)
        requires
            old(self).wf(),
            old(self).latest_time() <= now,
            -PX_LIMIT <= point.x <= PX_LIMIT,
            -PX_LIMIT <= point.y <= PX_LIMIT,
            0 <= span <= 200_000_000,
        ensures
            final(self).history@ == spec_evict(
                old(self).history@.push(
                    MotionSample {
                        time: now,
                        x: point.x,
                        y: point.y,
                        span: (if span < 1000 {
                            1000i64
                        } else {
                            span
                        }),
                    },
                ),
                now,
            ),
            r == spec_motion_class(final(self).history@, primary),
            final(self).wf(),
            final(self).latest_time() <= now,
    {
        let stored_span: i64 = if span < 1000 {
            1000
        } else {
            span
        };
        self.history.push_back(MotionSample { time: now, x: point.x, y: point.y, span: stored_span });
        let ghost pushed = self.history@;
        proof {
            assert(forall|i: int|
                0 <= i < pushed.len() - 1 ==> #[trigger] pushed[i].time <= pushed[i + 1].time);
        }
        while self.front_is_stale(now)
            invariant
                spec_evict(self.history@, now) == spec_evict(pushed, now),
                forall|i: int|
                    0 <= i < self.history@.len() - 1 ==> #[trigger] self.history@[i].time
                        <= self.history@[i + 1].time,
                forall|i: int|
                    0 <= i < self.history@.len() ==> 1000 <= #[trigger] self.history@[i].span
                        <= 200_000_000 && -PX_LIMIT <= self.history@[i].x <= PX_LIMIT && -PX_LIMIT
                        <= self.history@[i].y <= PX_LIMIT,
                self.history@.len() > 0 ==> self.history@.last().time <= now,
                self.history@.len() > 0 ==> self.history@.last() == pushed.last(),
            decreases self.history@.len(),
        {
            let ghost before = self.history@;
            let _ = self.history.pop_front();
            proof {
                assert(self.history@ =~= before.drop_first());
            }
        }
        proof {
            assert(self.history@ =~= spec_evict(self.history@, now));
        }
        self.classify_history(primary)
    }

    /// Whether the oldest sample has fallen out of the motion window.
    fn front_is_stale(&self, now: u64) -> (r: bool)
        ensures
            r == (self.history@.len() > 0 && spec_age(self.history@[0].time, now)
                > MOTION_WINDOW_MS),
    {
        if self.history.len() == 0 {
            return false;
        }
        let t = self.history[0].time;
        let age: u64 = if now >= t {
            now - t
        } else {
            0
        };
        age > MOTION_WINDOW_MS
    }

    /// Classify the current history without changing it; mirrors
    /// `spec_motion_class`.
    fn classify_history(&self, primary: GestureKind) -> (r: GestureMotion)
        requires
            self.wf(),
        ensures
            r == spec_motion_class(self.history@, primary),
    {
        let n = self.history.len();
        if n < 3 {
            return GestureMotion::Steady;
        }
        let mut pts: Vec<Point2> = Vec::new();
        let mut xs: Vec<i64> = Vec::new();
        let mut ys: Vec<i64> = Vec::new();
        let mut sum: u128 = 0;
        let mut i: usize = 0;
        while i < n
            invariant
                0 <= i <= n,
                n == self.history@.len(),
                self.wf(),
                pts@.len() == i && xs@.len() == i && ys@.len() == i,
                forall|j: int|
                    0 <= j < i ==> #[trigger] pts@[j] == (Point2 {
                        x: self.history@[j].x,
                        y: self.history@[j].y,
                    }),
                forall|j: int| 0 <= j < i ==> #[trigger] xs@[j] == self.history@[j].x,
                forall|j: int| 0 <= j < i ==> #[trigger] ys@[j] == self.history@[j].y,
                sum == spec_sum_span(self.history@.take(i as int)),
                sum <= i * 200_000_000,
            decreases n - i,
        {
            let s = self.history[i];
            proof {
                assert(self.history@.take(i + 1).drop_last() =~= self.history@.take(i as int));
                assert(self.history@.take(i + 1).last() == self.history@[i as int]);
            }
            pts.push(Point2 { x: s.x, y: s.y });
            xs.push(s.x);
            ys.push(s.y);
            sum = sum + (s.span as u128);
            i = i + 1;
        }
        proof {
            assert(self.history@.take(n as int) =~= self.history@);
            assert(pts@ =~= spec_positions(self.history@));
            assert(xs@ =~= spec_xs(self.history@));
            assert(ys@ =~= spec_ys(self.history@));
            lemma_sum_span_bounds(self.history@);
            crate::numeric::lemma_div_le_factor(sum as int, 200_000_000, n as int);
            assert((n as int) * 1000 / (n as int) <= (sum as int) / (n as int)) by {
                vstd::arithmetic::div_mod::lemma_div_is_ordered((n as int) * 1000, sum as int,
                    n as int);
            }
            assert((n as int) * 1000 / (n as int) == 1000) by (nonlinear_arith)
                requires
                    n >= 3,
            ;
        }
        let avg: i64 = (sum / (n as u128)) as i64;
        let norm: i64 = if avg < 1000 {
            1000
        } else {
            avg
        };
        let (min_x, min_y, max_x, max_y) = crate::geom::bbox2(&pts);
        proof {
            assert forall|j: int|
                0 <= j < pts@.len() implies crate::geom::p2_in(
                #[trigger] pts@[j],
                PX_LIMIT as int,
            ) by {
                assert(pts@[j] == (Point2 { x: self.history@[j].x, y: self.history@[j].y }));
                assert(1000 <= self.history@[j].span);
            }
            lemma_bbox2(pts@);
            crate::geom::lemma_bbox2_bounded(pts@, PX_LIMIT as int);
            assert(-PX_LIMIT <= min_x <= max_x <= PX_LIMIT && -PX_LIMIT <= min_y <= max_y
                <= PX_LIMIT);
            assert(((max_x - min_x) as int) * 1000 <= 200_000_000 * (norm as int) && ((max_y
                - min_y) as int) * 1000 <= 200_000_000 * (norm as int)) by (nonlinear_arith)
                requires
                    0 <= max_x - min_x <= 200_000_000,
                    0 <= max_y - min_y <= 200_000_000,
                    norm >= 1000,
            ;
            crate::numeric::lemma_div_le_factor((max_x - min_x) as int * 1000, 200_000_000,
                norm as int);
            crate::numeric::lemma_div_le_factor((max_y - min_y) as int * 1000, 200_000_000,
                norm as int);
            crate::numeric::lemma_div_le_factor((norm as int) * 80, 16_000_000, 1000);
        }
        let span_x: i64 = ((((max_x - min_x) as u64) * 1000) / (norm as u64)) as i64;
        let span_y: i64 = ((((max_y - min_y) as u64) * 1000) / (norm as u64)) as i64;
        let min_step: i64 = (((norm as u64) * 80) / 1000) as i64;
        proof {
            assert forall|j: int|
                0 <= j < xs@.len() implies -PX_LIMIT <= #[trigger] xs@[j] <= PX_LIMIT by {
                assert(xs@[j] == self.history@[j].x);
                assert(1000 <= self.history@[j].span);
            }
            assert forall|j: int|
                0 <= j < ys@.len() implies -PX_LIMIT <= #[trigger] ys@[j] <= PX_LIMIT by {
                assert(ys@[j] == self.history@[j].y);
                assert(1000 <= self.history@[j].span);
            }
        }
        let changes_x = direction_changes(&xs, min_step);
        let changes_y = direction_changes(&ys, min_step);
        let open_like = matches!(
            primary,
            GestureKind::OpenPalm | GestureKind::Four | GestureKind::Unknown
        );
        if span_x > 550 && changes_x >= 2 && open_like {
            GestureMotion::Fanning
        } else if span_y > 550 && changes_y >= 2 {
            GestureMotion::VerticalWave
        } else if span_x > 250 || span_y > 250 {
            GestureMotion::Moving
        } else {
            GestureMotion::Steady
        }
    }
}

} // verus!
