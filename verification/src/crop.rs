//! Verified crop extraction: sample a square, possibly rotated region of
//! the source frame into a tightly packed RGB buffer at the model's
//! input resolution, nearest-neighbor, letterboxed with black where the
//! region leaves the frame.
use vstd::prelude::*;

use crate::geom::CropTransform;
use crate::numeric::{div_trunc, div_trunc_i64, lemma_div_le_factor, lemma_div_trunc_le};
use crate::types::Frame;

verus! {

/// Largest supported model input edge, pixels.
pub const MAX_CROP_SIZE: u32 = 1024;

/// Largest supported source frame edge, pixels.
pub const MAX_FRAME_EDGE: u32 = 16_384;

/// Source x in milli-pixels of output column `u`: the crop-local offset
/// scaled by the side and de-rotated around the crop center.
pub open spec fn spec_src_xm(u: int, v: int, t: CropTransform, size: int) -> int {
    let du = div_trunc((u * 1000 / size - 500) * t.side, 1000);
    let dv = div_trunc((v * 1000 / size - 500) * t.side, 1000);
    t.cx + div_trunc(du * t.rot_cos - dv * t.rot_sin, 1000)
}

/// Source y in milli-pixels of output row `v`.
pub open spec fn spec_src_ym(u: int, v: int, t: CropTransform, size: int) -> int {
    let du = div_trunc((u * 1000 / size - 500) * t.side, 1000);
    let dv = div_trunc((v * 1000 / size - 500) * t.side, 1000);
    t.cy + div_trunc(du * t.rot_sin + dv * t.rot_cos, 1000)
}

/// Whether the sample for output pixel `(u, v)` falls inside the frame.
pub open spec fn spec_src_in_frame(u: int, v: int, t: CropTransform, size: int, w: int, h: int)
    -> bool {
    let xm = spec_src_xm(u, v, t, size);
    let ym = spec_src_ym(u, v, t, size);
    0 <= xm && 0 <= ym && xm / 1000 < w && ym / 1000 < h
}

/// The byte the crop shows at `(u, v)` for color channel `c` (0, 1 or
/// 2): the sampled source pixel's byte, or zero in the letterbox.
pub open spec fn spec_crop_byte(
    rgba: Seq<u8>,
    u: int,
    v: int,
    t: CropTransform,
    size: int,
    w: int,
    h: int,
    c: int,
) -> u8 {
    if spec_src_in_frame(u, v, t, size, w, h) {
        let sx = spec_src_xm(u, v, t, size) / 1000;
        let sy = spec_src_ym(u, v, t, size) / 1000;
        rgba[(sy * w + sx) * 4 + c]
    } else {
        0
    }
}

/// Compute the source milli-pixel position of one output pixel; mirrors
/// `spec_src_xm` / `spec_src_ym`.
fn src_position(u: u32, v: u32, t: &CropTransform, size: u32) -> (r: (i64, i64))
    requires
        t.wf(),
        1 <= size <= MAX_CROP_SIZE,
        u < size,
        v < size,
    ensures
        r.0 == spec_src_xm(u as int, v as int, *t, size as int),
        r.1 == spec_src_ym(u as int, v as int, *t, size as int),
        -40_000_000 <= r.0 <= 40_000_000,
        -40_000_000 <= r.1 <= 40_000_000,
{
    let un: i64 = ((u as u64) * 1000 / (size as u64)) as i64;
    let vn: i64 = ((v as u64) * 1000 / (size as u64)) as i64;
    proof {
        lemma_div_le_factor((u as int) * 1000, 1000, size as int);
        lemma_div_le_factor((v as int) * 1000, 1000, size as int);
        assert(-500 * (t.side as int) <= (un - 500) * (t.side as int) <= 500 * (t.side as int)
            && -500 * (t.side as int) <= (vn - 500) * (t.side as int) <= 500 * (t.side as int))
            by (nonlinear_arith)
            requires
                0 <= un <= 1000,
                0 <= vn <= 1000,
                1 <= t.side,
        ;
    }
    let du = div_trunc_i64((un - 500) * t.side, 1000);
    let dv = div_trunc_i64((vn - 500) * t.side, 1000);
    proof {
        lemma_div_trunc_le(((un - 500) as int) * (t.side as int), 8_000_000, 1000);
        lemma_div_trunc_le(((vn - 500) as int) * (t.side as int), 8_000_000, 1000);
        assert(-8_000_000_000 <= (du as int) * (t.rot_cos as int) <= 8_000_000_000
            && -8_000_000_000 <= (dv as int) * (t.rot_sin as int) <= 8_000_000_000
            && -8_000_000_000 <= (du as int) * (t.rot_sin as int) <= 8_000_000_000
            && -8_000_000_000 <= (dv as int) * (t.rot_cos as int) <= 8_000_000_000)
            by (nonlinear_arith)
            requires
                -8_000_000 <= du <= 8_000_000,
                -8_000_000 <= dv <= 8_000_000,
                -1000 <= t.rot_cos <= 1000,
                -1000 <= t.rot_sin <= 1000,
        ;
        lemma_div_trunc_le(
            (du as int) * (t.rot_cos as int) - (dv as int) * (t.rot_sin as int),
            16_000_000,
            1000,
        );
        lemma_div_trunc_le(
            (du as int) * (t.rot_sin as int) + (dv as int) * (t.rot_cos as int),
            16_000_000,
            1000,
        );
    }
    let xm = t.cx + div_trunc_i64(du * t.rot_cos - dv * t.rot_sin, 1000);
    let ym = t.cy + div_trunc_i64(du * t.rot_sin + dv * t.rot_cos, 1000);
    (xm, ym)
}

/// Extract the crop as packed RGB bytes, row-major, three bytes per
/// output pixel; mirrors `spec_crop_byte` for every byte.
pub fn extract_rotated_crop(frame: &Frame, t: &CropTransform, size: u32) -> (r: Vec<u8>)
    requires
        t.wf(),
        1 <= size <= MAX_CROP_SIZE,
        frame.width <= MAX_FRAME_EDGE,
        frame.height <= MAX_FRAME_EDGE,
        frame.rgba@.len() == (frame.width as int) * (frame.height as int) * 4,
    ensures
        r@.len() == (size as int) * (size as int) * 3,
        forall|v: int, u: int, c: int|
            0 <= v < size && 0 <= u < size && 0 <= c < 3 ==> #[trigger] r@[(v * (size as int) + u)
                * 3 + c] == spec_crop_byte(
                frame.rgba@,
                u,
                v,
                *t,
                size as int,
                frame.width as int,
                frame.height as int,
                c,
            ),
{
    let w = frame.width;
    let h = frame.height;
    let mut out: Vec<u8> = Vec::new();
    let mut v: u32 = 0;
    while v < size
        invariant
            0 <= v <= size,
            t.wf(),
            1 <= size <= MAX_CROP_SIZE,
            w == frame.width,
            h == frame.height,
            w <= MAX_FRAME_EDGE,
            h <= MAX_FRAME_EDGE,
            frame.rgba@.len() == (w as int) * (h as int) * 4,
            out@.len() == (v as int) * (size as int) * 3,
            forall|vv: int, uu: int, c: int|
                0 <= vv < v && 0 <= uu < size && 0 <= c < 3 ==> #[trigger] out@[(vv * (
                size as int) + uu) * 3 + c] == spec_crop_byte(
                    frame.rgba@,
                    uu,
                    vv,
                    *t,
                    size as int,
                    w as int,
                    h as int,
                    c,
                ),
        decreases size - v,
    {
        let mut u: u32 = 0;
        while u < size
            invariant
                0 <= u <= size,
                0 <= v < size,
                t.wf(),
                1 <= size <= MAX_CROP_SIZE,
                w == frame.width,
                h == frame.height,
                w <= MAX_FRAME_EDGE,
                h <= MAX_FRAME_EDGE,
                frame.rgba@.len() == (w as int) * (h as int) * 4,
                out@.len() == ((v as int) * (size as int) + (u as int)) * 3,
                forall|vv: int, uu: int, c: int|
                    0 <= vv < v && 0 <= uu < size && 0 <= c < 3 ==> #[trigger] out@[(vv * (
                    size as int) + uu) * 3 + c] == spec_crop_byte(
                        frame.rgba@,
                        uu,
                        vv,
                        *t,
                        size as int,
                        w as int,
                        h as int,
                        c,
                    ),
                forall|uu: int, c: int|
                    0 <= uu < u && 0 <= c < 3 ==> #[trigger] out@[((v as int) * (size as int) + uu)
                        * 3 + c] == spec_crop_byte(
                        frame.rgba@,
                        uu,
                        v as int,
                        *t,
                        size as int,
                        w as int,
                        h as int,
                        c,
                    ),
            decreases size - u,
        {
            let ghost base = ((v as int) * (size as int) + (u as int)) * 3;
            let (xm, ym) = src_position(u, v, t, size);
            let mut in_frame = false;
            let mut src: usize = 0;
            if xm >= 0 && ym >= 0 {
                let sx: u64 = (xm as u64) / 1000;
                let sy: u64 = (ym as u64) / 1000;
                if sx < w as u64 && sy < h as u64 {
                    proof {
                        assert((sy as int) * (w as int) * 4 + (sx as int) * 4 + 3 < (w as int) * (
                        h as int) * 4) by (nonlinear_arith)
                            requires
                                0 <= sx < w as int,
                                0 <= sy < h as int,
                        ;
                        assert(((sy as int) * (w as int) + (sx as int)) * 4 + 2 == (sy as int) * (
                        w as int) * 4 + (sx as int) * 4 + 2) by (nonlinear_arith);
                        assert(0 <= (sy as int) * (w as int) + (sx as int) <= 268_435_456)
                            by (nonlinear_arith)
                            requires
                                0 <= sx < w as int,
                                0 <= sy < h as int,
                                w <= 16_384,
                                h <= 16_384,
                        ;
                    }
                    in_frame = true;
                    src = (((sy * (w as u64)) + sx) * 4) as usize;
                }
            }
            proof {
                assert(in_frame == spec_src_in_frame(u as int, v as int, *t, size as int,
                    w as int, h as int));
                if in_frame {
                    assert(src == (spec_src_ym(u as int, v as int, *t, size as int) / 1000 * (
                    w as int) + spec_src_xm(u as int, v as int, *t, size as int) / 1000) * 4);
                }
            }
            let ghost out0 = out@;
            if in_frame {
                out.push(frame.rgba[src]);
                out.push(frame.rgba[src + 1]);
                out.push(frame.rgba[src + 2]);
            } else {
                out.push(0);
                out.push(0);
                out.push(0);
            }
            proof {
                assert(out@.len() == base + 3);
                assert(out@[base + 0] == spec_crop_byte(frame.rgba@, u as int, v as int, *t,
                    size as int, w as int, h as int, 0));
                assert(out@[base + 1] == spec_crop_byte(frame.rgba@, u as int, v as int, *t,
                    size as int, w as int, h as int, 1));
                assert(out@[base + 2] == spec_crop_byte(frame.rgba@, u as int, v as int, *t,
                    size as int, w as int, h as int, 2));
                assert forall|vv: int, uu: int, c: int|
                    0 <= vv < v && 0 <= uu < size && 0 <= c < 3 implies #[trigger] out@[(vv * (
                size as int) + uu) * 3 + c] == spec_crop_byte(
                    frame.rgba@,
                    uu,
                    vv,
                    *t,
                    size as int,
                    w as int,
                    h as int,
                    c,
                ) by {
                    assert(0 <= (vv * (size as int) + uu) * 3 + c && (vv * (size as int) + uu) * 3
                        + c < ((v as int) * (size as int)) * 3) by (nonlinear_arith)
                        requires
                            0 <= vv < v as int,
                            0 <= uu < size as int,
                            0 <= c < 3,
                    ;
                    assert(out@[(vv * (size as int) + uu) * 3 + c] == out0[(vv * (size as int)
                        + uu) * 3 + c]);
                }
                assert forall|uu: int, c: int|
                    0 <= uu < u && 0 <= c < 3 implies #[trigger] out@[((v as int) * (size as int)
                    + uu) * 3 + c] == spec_crop_byte(
                    frame.rgba@,
                    uu,
                    v as int,
                    *t,
                    size as int,
                    w as int,
                    h as int,
                    c,
                ) by {
                    assert(out@[((v as int) * (size as int) + uu) * 3 + c] == out0[((v as int) * (
                    size as int) + uu) * 3 + c]);
                }
            }
            u = u + 1;
        }
        proof {
            assert(((v as int) * (size as int) + (size as int)) * 3 == ((v + 1) as int) * (
            size as int) * 3) by (nonlinear_arith);
        }
        v = v + 1;
    }
    proof {
        assert((size as int) * (size as int) * 3 == out@.len());
    }
    out
}

} // verus!
