//! Frame composition: overlay drawing, the overlay confidence gate, and
//! the adaptive cadence controller that regulates output rate under load.
use vstd::prelude::*;

use crate::numeric::div_trunc_i64;
use crate::types::{Frame, GestureResult, PalmRegion, Point2, RecognizedFrame};

verus! {

/// Fastest output rate, frames per second.
pub const MAX_COMPOSITED_FPS: u64 = 30;

/// Slowest output rate, frames per second.
pub const MIN_COMPOSITED_FPS: u64 = 12;

/// The skeleton overlay is drawn only at or above this per-mille
/// confidence; a separate, higher bar than the classification floor.
pub const OVERLAY_CONFIDENCE_MILLI: u32 = 500;

/// Intervals and compose times beyond this many milliseconds are outside
/// the controller's domain.
pub const INTERVAL_LIMIT_MS: u64 = 1_000_000_000;

/// One composited frame together with the result it shows.
#[derive(Clone, Debug)]
pub struct CompositedFrame {
    pub frame: Frame,
    pub result: GestureResult,
}

pub open spec fn spec_imin64(a: int, b: int) -> int {
    if a < b {
        a
    } else {
        b
    }
}

pub open spec fn spec_imax64(a: int, b: int) -> int {
    if a > b {
        a
    } else {
        b
    }
}

/// The closed-loop cadence rule. On backpressure the interval grows by a
/// quarter; when the compose time itself exceeds the interval the grown
/// compose time becomes the interval; when the compose time is below two
/// thirds of the interval the interval shrinks to 17/20 of itself;
/// otherwise it holds. Growth is capped at `max_interval`, shrink is
/// floored at `min_interval`.
pub open spec fn spec_adjust_interval(
    current: int,
    compose: int,
    min_interval: int,
    max_interval: int,
    dropped: bool,
) -> int {
    if dropped && current < max_interval {
        spec_imin64(current * 5 / 4, max_interval)
    } else if compose > current && current < max_interval {
        spec_imin64(compose * 5 / 4, max_interval)
    } else if compose * 3 < current * 2 && current > min_interval {
        spec_imax64(current * 17 / 20, min_interval)
    } else {
        current
    }
}

/// Adapt the target frame interval; mirrors `spec_adjust_interval`.
pub fn adjust_interval(
    current: u64,
    compose_time: u64,
    min_interval: u64,
    max_interval: u64,
    dropped_frame: bool,
) -> (r: u64)
    requires
        current <= INTERVAL_LIMIT_MS,
        compose_time <= INTERVAL_LIMIT_MS,
        max_interval <= INTERVAL_LIMIT_MS,
    ensures
        r == spec_adjust_interval(
            current as int,
            compose_time as int,
            min_interval as int,
            max_interval as int,
            dropped_frame,
        ),
{
    if dropped_frame && current < max_interval {
        let grown = current * 5 / 4;
        if grown < max_interval {
            grown
        } else {
            max_interval
        }
    } else if compose_time > current && current < max_interval {
        let grown = compose_time * 5 / 4;
        if grown < max_interval {
            grown
        } else {
            max_interval
        }
    } else if compose_time * 3 < current * 2 && current > min_interval {
        let shrunk = current * 17 / 20;
        if shrunk > min_interval {
            shrunk
        } else {
            min_interval
        }
    } else {
        current
    }
}

/// Under sustained load the interval never falls: on backpressure, or a
/// compose time above the interval, the next interval is at least the
/// current one and at most the maximum, grows strictly while below the
/// maximum, and holds once there.
pub proof fn lemma_interval_grows(
    current: int,
    compose: int,
    min_interval: int,
    max_interval: int,
    dropped: bool,
)
    requires
        4 <= min_interval <= current <= max_interval,
        compose > current,
    ensures
        current <= spec_adjust_interval(current, compose, min_interval, max_interval, dropped)
            <= max_interval,
        current < max_interval ==> spec_adjust_interval(
            current,
            compose,
            min_interval,
            max_interval,
            dropped,
        ) > current,
        current == max_interval ==> spec_adjust_interval(
            current,
            compose,
            min_interval,
            max_interval,
            dropped,
        ) == max_interval,
{
    if current < max_interval {
        if dropped {
            assert(current * 5 / 4 > current) by (nonlinear_arith)
                requires
                    current >= 4,
            ;
        } else {
            assert(compose * 5 / 4 >= compose) by (nonlinear_arith)
                requires
                    compose >= 0,
            ;
        }
    } else {
        assert(compose * 3 >= current * 2) by (nonlinear_arith)
            requires
                compose > current,
                current >= 4,
        ;
    }
}

/// With a comfortably low compose time the interval never rises: the next
/// interval is at most the current one and at least the minimum, shrinks
/// strictly while above the minimum, and holds once there.
pub proof fn lemma_interval_shrinks(
    current: int,
    compose: int,
    min_interval: int,
    max_interval: int,
)
    requires
        1 <= min_interval <= current <= max_interval,
        0 <= compose,
        compose * 3 < current * 2,
    ensures
        min_interval <= spec_adjust_interval(current, compose, min_interval, max_interval, false)
            <= current,
        current > min_interval ==> spec_adjust_interval(
            current,
            compose,
            min_interval,
            max_interval,
            false,
        ) < current,
        current == min_interval ==> spec_adjust_interval(
            current,
            compose,
            min_interval,
            max_interval,
            false,
        ) == min_interval,
{
    assert(compose <= current) by (nonlinear_arith)
        requires
            compose * 3 < current * 2,
            compose >= 0,
            current >= 1,
    ;
    if current > min_interval {
        assert(current * 17 / 20 < current) by (nonlinear_arith)
            requires
                current >= 1,
        ;
    }
}

/// In the comfortable band the interval holds exactly.
pub proof fn lemma_interval_holds(
    current: int,
    compose: int,
    min_interval: int,
    max_interval: int,
)
    requires
        min_interval <= current <= max_interval,
        compose <= current,
        compose * 3 >= current * 2,
    ensures
        spec_adjust_interval(current, compose, min_interval, max_interval, false) == current,
{
}

/// The landmarks to draw: only present when the result's confidence
/// clears the overlay bar and landmarks exist at all.
pub fn overlay_points(result: &GestureResult) -> (r: Option<&Vec<Point2>>)
    ensures
        r is Some <==> (result.confidence >= OVERLAY_CONFIDENCE_MILLI && result.landmarks
            is Some),
        r matches Some(v) ==> (result.landmarks matches Some(w) && v@ == w@),
{
    if result.confidence >= OVERLAY_CONFIDENCE_MILLI {
        result.landmarks.as_ref()
    } else {
        None
    }
}

/// Paint one pixel, ignoring coordinates outside the image.
fn set_pixel(rgba: &mut Vec<u8>, width: u32, height: u32, x: i64, y: i64)
    requires
        old(rgba)@.len() == (width as int) * (height as int) * 4,
    ensures
        final(rgba)@.len() == old(rgba)@.len(),
{
    if x < 0 || y < 0 {
        return ;
    }
    if x >= width as i64 || y >= height as i64 {
        return ;
    }
    let n = rgba.len();
    proof {
        assert(((y as int) * (width as int) + (x as int)) * 4 + 3 < (width as int) * (
        height as int) * 4) by (nonlinear_arith)
            requires
                0 <= x < width as int,
                0 <= y < height as int,
        ;
    }
    let idx: usize = (((y as u64) * (width as u64) + (x as u64)) * 4) as usize;
    rgba.set(idx, 0);
    rgba.set(idx + 1, 255);
    rgba.set(idx + 2, 128);
    rgba.set(idx + 3, 255);
}

/// Draw a small solid marker centered on a milli-pixel coordinate.
fn draw_marker(rgba: &mut Vec<u8>, width: u32, height: u32, p: Point2)
    requires
        old(rgba)@.len() == (width as int) * (height as int) * 4,
        crate::geom::p2_in(p, crate::geom::PX_LIMIT as int),
    ensures
        final(rgba)@.len() == old(rgba)@.len(),
{
    proof {
        crate::numeric::lemma_div_trunc_le(p.x as int, 100_000, 1000);
        crate::numeric::lemma_div_trunc_le(p.y as int, 100_000, 1000);
    }
    let px = div_trunc_i64(p.x, 1000);
    let py = div_trunc_i64(p.y, 1000);
    let mut dy: i64 = -1;
    while dy <= 1
        invariant
            rgba@.len() == (width as int) * (height as int) * 4,
            -1 <= dy <= 2,
            -200_000 <= px <= 200_000,
            -200_000 <= py <= 200_000,
        decreases 2 - dy,
    {
        let mut dx: i64 = -1;
        while dx <= 1
            invariant
                rgba@.len() == (width as int) * (height as int) * 4,
                -1 <= dx <= 2,
                -1 <= dy <= 1,
                -200_000 <= px <= 200_000,
                -200_000 <= py <= 200_000,
            decreases 2 - dx,
        {
            set_pixel(rgba, width, height, px + dx, py + dy);
            dx = dx + 1;
        }
        dy = dy + 1;
    }
}

/// Draw the four edges of a palm box as markers at its corners.
fn draw_region(rgba: &mut Vec<u8>, width: u32, height: u32, region: &PalmRegion)
    requires
        old(rgba)@.len() == (width as int) * (height as int) * 4,
        region.wf(),
    ensures
        final(rgba)@.len() == old(rgba)@.len(),
{
    let corners: [Point2; 4] = [
        Point2 { x: region.bbox[0], y: region.bbox[1] },
        Point2 { x: region.bbox[2], y: region.bbox[1] },
        Point2 { x: region.bbox[0], y: region.bbox[3] },
        Point2 { x: region.bbox[2], y: region.bbox[3] },
    ];
    let mut i: usize = 0;
    while i < 4
        invariant
            rgba@.len() == (width as int) * (height as int) * 4,
            forall|j: int|
                0 <= j < 4 ==> crate::geom::p2_in(#[trigger] corners@[j],
                crate::geom::PX_LIMIT as int),
        decreases 4 - i,
    {
        draw_marker(rgba, width, height, corners[i]);
        i = i + 1;
    }
}

/// Draw the palm boxes unconditionally and the landmark skeleton only
/// above the overlay confidence bar, preserving the pixel buffer's size.
pub fn draw_overlays(frame: &mut Frame, result: &GestureResult)
    requires
        old(frame).rgba@.len() == (old(frame).width as int) * (old(frame).height as int) * 4,
        forall|i: int|
            0 <= i < result.palm_regions@.len() ==> (#[trigger] result.palm_regions@[i]).wf(),
        result.landmarks matches Some(v) ==> forall|i: int|
            0 <= i < v@.len() ==> crate::geom::p2_in(#[trigger] v@[i],
            crate::geom::PX_LIMIT as int),
    ensures
        final(frame).rgba@.len() == old(frame).rgba@.len(),
        final(frame).width == old(frame).width,
        final(frame).height == old(frame).height,
        final(frame).timestamp == old(frame).timestamp,
{
    let width = frame.width;
    let height = frame.height;
    let mut i: usize = 0;
    while i < result.palm_regions.len()
        invariant
            frame.rgba@.len() == (width as int) * (height as int) * 4,
            frame.width == width,
            frame.height == height,
            frame.timestamp == old(frame).timestamp,
            forall|j: int|
                0 <= j < result.palm_regions@.len() ==> (#[trigger] result.palm_regions@[
                j]).wf(),
        decreases result.palm_regions@.len() - i,
    {
        draw_region(&mut frame.rgba, width, height, &result.palm_regions[i]);
        i = i + 1;
    }
    match overlay_points(result) {
        Some(points) => {
            let mut k: usize = 0;
            while k < points.len()
                invariant
                    frame.rgba@.len() == (width as int) * (height as int) * 4,
                    frame.width == width,
                    frame.height == height,
                    frame.timestamp == old(frame).timestamp,
                    forall|j: int|
                        0 <= j < points@.len() ==> crate::geom::p2_in(#[trigger] points@[j],
                        crate::geom::PX_LIMIT as int),
                decreases points@.len() - k,
            {
                draw_marker(&mut frame.rgba, width, height, points[k]);
                k = k + 1;
            }
        },
        None => {},
    }
}

/// Swap the red and blue channels of a packed 4-byte-per-pixel buffer,
/// for display sinks that want BGRA; a trailing partial pixel is kept
/// unchanged.
pub fn swap_red_blue(rgba: &Vec<u8>) -> (r: Vec<u8>)
    ensures
        r@.len() == rgba@.len(),
        forall|p: int|
            0 <= p < rgba@.len() as int / 4 ==> #[trigger] r@[4 * p] == rgba@[4 * p + 2] && r@[4
                * p + 1] == rgba@[4 * p + 1] && r@[4 * p + 2] == rgba@[4 * p] && r@[4 * p + 3]
                == rgba@[4 * p + 3],
        forall|i: int| (rgba@.len() as int / 4) * 4 <= i < rgba@.len() ==> #[trigger] r@[i]
            == rgba@[i],
{
    let n: usize = rgba.len();
    let pixel_count: usize = n / 4;
    let mut out: Vec<u8> = Vec::new();
    let mut p: usize = 0;
    while p < pixel_count
        invariant
            0 <= p <= pixel_count,
            n == rgba@.len(),
            pixel_count == rgba@.len() as int / 4,
            out@.len() == 4 * p,
            forall|q: int|
                0 <= q < p ==> #[trigger] out@[4 * q] == rgba@[4 * q + 2] && out@[4 * q + 1]
                    == rgba@[4 * q + 1] && out@[4 * q + 2] == rgba@[4 * q] && out@[4 * q + 3]
                    == rgba@[4 * q + 3],
        decreases pixel_count - p,
    {
        proof {
            assert(4 * (p as int) + 3 < rgba@.len()) by (nonlinear_arith)
                requires
                    0 <= p < rgba@.len() as int / 4,
            ;
        }
        out.push(rgba[4 * p + 2]);
        out.push(rgba[4 * p + 1]);
        out.push(rgba[4 * p]);
        out.push(rgba[4 * p + 3]);
        proof {
            assert(out@[4 * (p as int)] == rgba@[4 * (p as int) + 2]);
            assert(out@[4 * (p as int) + 1] == rgba@[4 * (p as int) + 1]);
            assert(out@[4 * (p as int) + 2] == rgba@[4 * (p as int)]);
            assert(out@[4 * (p as int) + 3] == rgba@[4 * (p as int) + 3]);
        }
        p = p + 1;
    }
    let mut i: usize = pixel_count * 4;
    proof {
        assert((rgba@.len() as int / 4) * 4 <= rgba@.len()) by (nonlinear_arith);
    }
    while i < n
        invariant
            pixel_count == rgba@.len() as int / 4,
            (rgba@.len() as int / 4) * 4 <= i <= rgba@.len(),
            n == rgba@.len(),
            out@.len() == i,
            forall|q: int|
                0 <= q < pixel_count ==> #[trigger] out@[4 * q] == rgba@[4 * q + 2] && out@[4 * q
                    + 1] == rgba@[4 * q + 1] && out@[4 * q + 2] == rgba@[4 * q] && out@[4 * q + 3]
                    == rgba@[4 * q + 3],
            forall|j: int| (rgba@.len() as int / 4) * 4 <= j < i ==> #[trigger] out@[j]
                == rgba@[j],
        decreases n - i,
    {
        out.push(rgba[i]);
        i = i + 1;
    }
    out
}

/// Compose one recognized frame: draw its overlays and package it for the
/// display sink.
pub fn compose_frame(recognized: RecognizedFrame) -> (r: CompositedFrame)
    requires
        recognized.frame.rgba@.len() == (recognized.frame.width as int) * (
        recognized.frame.height as int) * 4,
        forall|i: int|
            0 <= i < recognized.result.palm_regions@.len() ==> (
            #[trigger] recognized.result.palm_regions@[i]).wf(),
        recognized.result.landmarks matches Some(v) ==> forall|i: int|
            0 <= i < v@.len() ==> crate::geom::p2_in(#[trigger] v@[i],
            crate::geom::PX_LIMIT as int),
    ensures
        r.result == recognized.result,
        r.frame.rgba@.len() == recognized.frame.rgba@.len(),
        r.frame.width == recognized.frame.width,
        r.frame.height == recognized.frame.height,
        r.frame.timestamp == recognized.frame.timestamp,
{
    let mut frame = recognized.frame;
    draw_overlays(&mut frame, &recognized.result);
    CompositedFrame { frame, result: recognized.result }
}

} // verus!
