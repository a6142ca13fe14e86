//! Fixed-point 3D/2D geometry: distances, cosine similarity, bounding
//! boxes, and the crop transform that maps crop-local landmarks back to
//! frame pixels.
//!
//! Every executable function mirrors a spec function exactly, so callers
//! reason about the same arithmetic the code performs.
use vstd::prelude::*;

use crate::numeric::{div_trunc, div_trunc_i128, div_trunc_i64, isqrt, lemma_sqrt_floor_bounds,
    sqrt_floor};
use crate::types::{Point2, Point3};

verus! {

/// Bound on raw (crop-space) landmark coordinates, milli-units.
pub const RAW_LIMIT: i64 = 1_000_000;

/// Bound on normalized landmark coordinates, milli-units.
pub const NORM_LIMIT: i64 = 1_000_000_000;

/// Bound on projected frame coordinates, milli-pixels.
pub const PX_LIMIT: i64 = 100_000_000;

/// Bound on segment-vector components fed to the cosine, milli-units.
pub const VEC_LIMIT: i64 = 2_000_000_000;

pub open spec fn imax(a: int, b: int) -> int {
    if a > b {
        a
    } else {
        b
    }
}

pub open spec fn imin(a: int, b: int) -> int {
    if a < b {
        a
    } else {
        b
    }
}

pub open spec fn iclamp(x: int, lo: int, hi: int) -> int {
    if x < lo {
        lo
    } else if x > hi {
        hi
    } else {
        x
    }
}

pub open spec fn iabs(x: int) -> int {
    if x < 0 {
        -x
    } else {
        x
    }
}

/// Segment vector `a - b` of two in-range points.
pub open spec fn spec_vdiff(a: Point3, b: Point3) -> Point3 {
    Point3 { x: (a.x - b.x) as i64, y: (a.y - b.y) as i64, z: (a.z - b.z) as i64 }
}

/// A 3D point within `lim` on every axis.
pub open spec fn p3_in(p: Point3, lim: int) -> bool {
    -lim <= p.x <= lim && -lim <= p.y <= lim && -lim <= p.z <= lim
}

/// A 2D point within `lim` on both axes.
pub open spec fn p2_in(p: Point2, lim: int) -> bool {
    -lim <= p.x <= lim && -lim <= p.y <= lim
}

pub open spec fn spec_dot3(a: Point3, b: Point3) -> int {
    a.x * b.x + a.y * b.y + a.z * b.z
}

/// Squared Euclidean norm.
pub open spec fn spec_norm_sq3(a: Point3) -> int {
    a.x * a.x + a.y * a.y + a.z * a.z
}

/// Euclidean norm, rounded down.
pub open spec fn spec_norm3(a: Point3) -> int {
    sqrt_floor(spec_norm_sq3(a) as nat) as int
}

/// Euclidean distance between two points, rounded down.
pub open spec fn spec_dist3(a: Point3, b: Point3) -> int {
    sqrt_floor(((a.x - b.x) * (a.x - b.x) + (a.y - b.y) * (a.y - b.y) + (a.z - b.z) * (a.z
        - b.z)) as nat) as int
}

/// Cosine of the angle between two vectors, per-mille, truncated toward
/// zero and clamped to `[-1000, 1000]`; zero when either vector is shorter
/// than one milli-unit (the degenerate case the pipeline treats as "no
/// direction").
pub open spec fn spec_cos_milli(a: Point3, b: Point3) -> int {
    let den = spec_norm3(a) * spec_norm3(b);
    if den == 0 {
        0
    } else {
        iclamp(div_trunc(spec_dot3(a, b) * 1000, den), -1000, 1000)
    }
}

/// Average cosine straightness of the chain `a`, `b`, `c` of segment
/// vectors, per-mille, clamped to `[-1000, 1000]`.
pub open spec fn spec_straightness(a: Point3, b: Point3, c: Point3) -> int {
    iclamp(div_trunc(spec_cos_milli(a, b) + spec_cos_milli(b, c), 2), -1000, 1000)
}

/// The square of `d`, as a `u64`.
fn sq_u64(d: i64) -> (r: u64)
    requires
        -3_000_000_000 <= d <= 3_000_000_000,
    ensures
        r == (d as int) * (d as int),
        r <= 9_000_000_000_000_000_000,
{
    let m: u64 = if d >= 0 {
        d as u64
    } else {
        (-d) as u64
    };
    proof {
        assert((m as int) * (m as int) == (d as int) * (d as int) && (m as int) * (m as int)
            <= 9_000_000_000_000_000_000) by (nonlinear_arith)
            requires
                0 <= m <= 3_000_000_000,
                m == d || m == -(d as int),
        ;
    }
    m * m
}

/// Norm of a vector, rounded down.
fn norm3(a: Point3) -> (r: i64)
    requires
        p3_in(a, VEC_LIMIT as int),
    ensures
        r == spec_norm3(a),
        0 <= r <= 4_000_000_000,
        r == 0 <==> a.x == 0 && a.y == 0 && a.z == 0,
{
    let sx = sq_u64(a.x);
    let sy = sq_u64(a.y);
    let sz = sq_u64(a.z);
    proof {
        assert(sx <= 4_000_000_000_000_000_000 && sy <= 4_000_000_000_000_000_000 && sz
            <= 4_000_000_000_000_000_000) by (nonlinear_arith)
            requires
                sx == (a.x as int) * (a.x as int),
                sy == (a.y as int) * (a.y as int),
                sz == (a.z as int) * (a.z as int),
                p3_in(a, VEC_LIMIT as int),
        ;
    }
    let n: u64 = sx + sy + sz;
    let r: u64 = isqrt(n);
    proof {
        lemma_sqrt_floor_bounds(n as nat);
        assert(r <= 4_000_000_000) by (nonlinear_arith)
            requires
                (r as int) * (r as int) <= n as int,
                n <= 12_000_000_000_000_000_000u64 as int,
        ;
        assert(n == 0 <==> a.x == 0 && a.y == 0 && a.z == 0) by (nonlinear_arith)
            requires
                sx == (a.x as int) * (a.x as int),
                sy == (a.y as int) * (a.y as int),
                sz == (a.z as int) * (a.z as int),
                n == sx + sy + sz,
        ;
        if n > 0 {
            assert(r >= 1) by (nonlinear_arith)
                requires
                    n >= 1,
                    (n as int) < ((r + 1) as int) * ((r + 1) as int),
            ;
        }
    }
    r as i64
}

/// Euclidean distance between two points, rounded down; mirrors
/// `spec_dist3`.
pub fn dist3(a: Point3, b: Point3) -> (r: i64)
    requires
        p3_in(a, NORM_LIMIT as int),
        p3_in(b, NORM_LIMIT as int),
    ensures
        r == spec_dist3(a, b),
        0 <= r <= 4_000_000_000,
{
    let d = Point3 { x: a.x - b.x, y: a.y - b.y, z: a.z - b.z };
    norm3(d)
}

/// Cosine similarity of two segment vectors, per-mille; mirrors
/// `spec_cos_milli`.
pub fn cos_milli(a: Point3, b: Point3) -> (r: i64)
    requires
        p3_in(a, VEC_LIMIT as int),
        p3_in(b, VEC_LIMIT as int),
    ensures
        r == spec_cos_milli(a, b),
        -1000 <= r <= 1000,
{
    let la = norm3(a);
    let lb = norm3(b);
    if la == 0 || lb == 0 {
        proof {
            assert(spec_norm3(a) * spec_norm3(b) == 0) by (nonlinear_arith)
                requires
                    spec_norm3(a) == la as int && spec_norm3(b) == lb as int,
                    la == 0 || lb == 0,
            ;
        }
        0
    } else {
        proof {
            assert((la as int) * (lb as int) <= 16_000_000_000_000_000_000 && (la as int) * (
            lb as int) >= 1) by (nonlinear_arith)
                requires
                    1 <= la <= 4_000_000_000,
                    1 <= lb <= 4_000_000_000,
            ;
            assert(-4_000_000_000_000_000_000 <= (a.x as int) * (b.x as int)
                <= 4_000_000_000_000_000_000 && -4_000_000_000_000_000_000 <= (a.y as int) * (
            b.y as int) <= 4_000_000_000_000_000_000 && -4_000_000_000_000_000_000 <= (
            a.z as int) * (b.z as int) <= 4_000_000_000_000_000_000) by (nonlinear_arith)
                requires
                    p3_in(a, VEC_LIMIT as int),
                    p3_in(b, VEC_LIMIT as int),
            ;
        }
        let den: u64 = (la as u64) * (lb as u64);
        let dot: i128 = (a.x as i128) * (b.x as i128) + (a.y as i128) * (b.y as i128) + (
        a.z as i128) * (b.z as i128);
        let q: i128 = div_trunc_i128(dot * 1000, den as i128);
        let c: i128 = if q < -1000 {
            -1000
        } else if q > 1000 {
            1000
        } else {
            q
        };
        c as i64
    }
}

/// Average straightness of a three-segment chain, per-mille; mirrors
/// `spec_straightness`.
pub fn average_straightness(a: Point3, b: Point3, c: Point3) -> (r: i64)
    requires
        p3_in(a, VEC_LIMIT as int),
        p3_in(b, VEC_LIMIT as int),
        p3_in(c, VEC_LIMIT as int),
    ensures
        r == spec_straightness(a, b, c),
        -1000 <= r <= 1000,
{
    let ab = cos_milli(a, b);
    let bc = cos_milli(b, c);
    let avg = div_trunc_i64(ab + bc, 2);
    if avg < -1000 {
        -1000
    } else if avg > 1000 {
        1000
    } else {
        avg
    }
}

/// Component-wise difference of two points, the segment vector `a - b`.
pub fn diff3(a: Point3, b: Point3) -> (r: Point3)
    requires
        p3_in(a, NORM_LIMIT as int),
        p3_in(b, NORM_LIMIT as int),
    ensures
        r.x == a.x - b.x && r.y == a.y - b.y && r.z == a.z - b.z,
        p3_in(r, VEC_LIMIT as int),
{
    Point3 { x: a.x - b.x, y: a.y - b.y, z: a.z - b.z }
}

/// Smallest x coordinate in a non-empty point sequence.
pub open spec fn min_x3(s: Seq<Point3>) -> int
    decreases s.len(),
{
    if s.len() <= 1 {
        if s.len() == 1 {
            s[0].x as int
        } else {
            0
        }
    } else {
        imin(min_x3(s.drop_last()), s.last().x as int)
    }
}

pub open spec fn min_y3(s: Seq<Point3>) -> int
    decreases s.len(),
{
    if s.len() <= 1 {
        if s.len() == 1 {
            s[0].y as int
        } else {
            0
        }
    } else {
        imin(min_y3(s.drop_last()), s.last().y as int)
    }
}

pub open spec fn max_x3(s: Seq<Point3>) -> int
    decreases s.len(),
{
    if s.len() <= 1 {
        if s.len() == 1 {
            s[0].x as int
        } else {
            0
        }
    } else {
        imax(max_x3(s.drop_last()), s.last().x as int)
    }
}

pub open spec fn max_y3(s: Seq<Point3>) -> int
    decreases s.len(),
{
    if s.len() <= 1 {
        if s.len() == 1 {
            s[0].y as int
        } else {
            0
        }
    } else {
        imax(max_y3(s.drop_last()), s.last().y as int)
    }
}

/// The four bounding-box extremes are attained and bound every point.
pub proof fn lemma_bbox3(s: Seq<Point3>)
    requires
        s.len() >= 1,
    ensures
        forall|i: int|
            0 <= i < s.len() ==> min_x3(s) <= #[trigger] s[i].x && s[i].x <= max_x3(s) && min_y3(s)
                <= s[i].y && s[i].y <= max_y3(s),
        exists|i: int| 0 <= i < s.len() && #[trigger] s[i].x == min_x3(s),
        exists|i: int| 0 <= i < s.len() && #[trigger] s[i].x == max_x3(s),
        exists|i: int| 0 <= i < s.len() && #[trigger] s[i].y == min_y3(s),
        exists|i: int| 0 <= i < s.len() && #[trigger] s[i].y == max_y3(s),
    decreases s.len(),
{
    if s.len() == 1 {
        assert(min_x3(s) == s[0].x);
        assert(max_x3(s) == s[0].x);
        assert(min_y3(s) == s[0].y);
        assert(max_y3(s) == s[0].y);
    } else {
        let d = s.drop_last();
        lemma_bbox3(d);
        let n = s.len() - 1;
        assert(s.last() == s[n]);
        assert(forall|i: int| 0 <= i < n ==> #[trigger] d[i] == s[i]);
        assert(min_x3(s) == imin(min_x3(d), s[n].x as int));
        assert(max_x3(s) == imax(max_x3(d), s[n].x as int));
        assert(min_y3(s) == imin(min_y3(d), s[n].y as int));
        assert(max_y3(s) == imax(max_y3(d), s[n].y as int));
        assert forall|i: int|
            0 <= i < s.len() implies min_x3(s) <= #[trigger] s[i].x && s[i].x <= max_x3(s)
            && min_y3(s) <= s[i].y && s[i].y <= max_y3(s) by {
            if i < n {
                assert(d[i] == s[i]);
            }
        }
        if min_x3(d) <= s[n].x {
            let k = choose|k: int| 0 <= k < d.len() && #[trigger] d[k].x == min_x3(d);
            assert(s[k].x == min_x3(s));
        } else {
            assert(s[n].x == min_x3(s));
        }
        if max_x3(d) >= s[n].x {
            let k = choose|k: int| 0 <= k < d.len() && #[trigger] d[k].x == max_x3(d);
            assert(s[k].x == max_x3(s));
        } else {
            assert(s[n].x == max_x3(s));
        }
        if min_y3(d) <= s[n].y {
            let k = choose|k: int| 0 <= k < d.len() && #[trigger] d[k].y == min_y3(d);
            assert(s[k].y == min_y3(s));
        } else {
            assert(s[n].y == min_y3(s));
        }
        if max_y3(d) >= s[n].y {
            let k = choose|k: int| 0 <= k < d.len() && #[trigger] d[k].y == max_y3(d);
            assert(s[k].y == max_y3(s));
        } else {
            assert(s[n].y == max_y3(s));
        }
    }
}

/// Bounding box of a non-empty point list: `(min_x, min_y, max_x, max_y)`.
pub fn bbox3(points: &Vec<Point3>) -> (r: (i64, i64, i64, i64))
    requires
        points@.len() >= 1,
    ensures
        r.0 == min_x3(points@),
        r.1 == min_y3(points@),
        r.2 == max_x3(points@),
        r.3 == max_y3(points@),
{
    let mut min_x: i64 = points[0].x;
    let mut min_y: i64 = points[0].y;
    let mut max_x: i64 = points[0].x;
    let mut max_y: i64 = points[0].y;
    let mut i: usize = 1;
    while i < points.len()
        invariant
            1 <= i <= points@.len(),
            min_x == min_x3(points@.take(i as int)),
            min_y == min_y3(points@.take(i as int)),
            max_x == max_x3(points@.take(i as int)),
            max_y == max_y3(points@.take(i as int)),
        decreases points@.len() - i,
    {
        let p = points[i];
        proof {
            assert(points@.take(i + 1).drop_last() =~= points@.take(i as int));
            assert(points@.take(i + 1).last() == points@[i as int]);
        }
        if p.x < min_x {
            min_x = p.x;
        }
        if p.y < min_y {
            min_y = p.y;
        }
        if p.x > max_x {
            max_x = p.x;
        }
        if p.y > max_y {
            max_y = p.y;
        }
        i = i + 1;
    }
    proof {
        assert(points@.take(points@.len() as int) =~= points@);
    }
    (min_x, min_y, max_x, max_y)
}

/// Over a bounded 3D point set the box extremes are ordered and bounded.
pub proof fn lemma_bbox3_bounded(s: Seq<Point3>, lim: int)
    requires
        s.len() >= 1,
        forall|i: int| 0 <= i < s.len() ==> p3_in(#[trigger] s[i], lim),
    ensures
        -lim <= min_x3(s) <= max_x3(s) <= lim,
        -lim <= min_y3(s) <= max_y3(s) <= lim,
{
    lemma_bbox3(s);
    assert(min_x3(s) <= s[0].x && s[0].x <= max_x3(s) && min_y3(s) <= s[0].y && s[0].y <= max_y3(
        s,
    ));
    let kx0 = choose|k: int| 0 <= k < s.len() && #[trigger] s[k].x == min_x3(s);
    assert(p3_in(s[kx0], lim));
    let kx1 = choose|k: int| 0 <= k < s.len() && #[trigger] s[k].x == max_x3(s);
    assert(p3_in(s[kx1], lim));
    let ky0 = choose|k: int| 0 <= k < s.len() && #[trigger] s[k].y == min_y3(s);
    assert(p3_in(s[ky0], lim));
    let ky1 = choose|k: int| 0 <= k < s.len() && #[trigger] s[k].y == max_y3(s);
    assert(p3_in(s[ky1], lim));
}

/// Smallest x coordinate in a non-empty 2D point sequence.
pub open spec fn min_x2(s: Seq<Point2>) -> int
    decreases s.len(),
{
    if s.len() <= 1 {
        if s.len() == 1 {
            s[0].x as int
        } else {
            0
        }
    } else {
        imin(min_x2(s.drop_last()), s.last().x as int)
    }
}

pub open spec fn min_y2(s: Seq<Point2>) -> int
    decreases s.len(),
{
    if s.len() <= 1 {
        if s.len() == 1 {
            s[0].y as int
        } else {
            0
        }
    } else {
        imin(min_y2(s.drop_last()), s.last().y as int)
    }
}

pub open spec fn max_x2(s: Seq<Point2>) -> int
    decreases s.len(),
{
    if s.len() <= 1 {
        if s.len() == 1 {
            s[0].x as int
        } else {
            0
        }
    } else {
        imax(max_x2(s.drop_last()), s.last().x as int)
    }
}

pub open spec fn max_y2(s: Seq<Point2>) -> int
    decreases s.len(),
{
    if s.len() <= 1 {
        if s.len() == 1 {
            s[0].y as int
        } else {
            0
        }
    } else {
        imax(max_y2(s.drop_last()), s.last().y as int)
    }
}

/// The 2D bounding-box extremes are attained and bound every point.
pub proof fn lemma_bbox2(s: Seq<Point2>)
    requires
        s.len() >= 1,
    ensures
        forall|i: int|
            0 <= i < s.len() ==> min_x2(s) <= #[trigger] s[i].x && s[i].x <= max_x2(s) && min_y2(s)
                <= s[i].y && s[i].y <= max_y2(s),
        exists|i: int| 0 <= i < s.len() && #[trigger] s[i].x == min_x2(s),
        exists|i: int| 0 <= i < s.len() && #[trigger] s[i].x == max_x2(s),
        exists|i: int| 0 <= i < s.len() && #[trigger] s[i].y == min_y2(s),
        exists|i: int| 0 <= i < s.len() && #[trigger] s[i].y == max_y2(s),
    decreases s.len(),
{
    if s.len() == 1 {
        assert(min_x2(s) == s[0].x);
        assert(max_x2(s) == s[0].x);
        assert(min_y2(s) == s[0].y);
        assert(max_y2(s) == s[0].y);
    } else {
        let d = s.drop_last();
        lemma_bbox2(d);
        let n = s.len() - 1;
        assert(s.last() == s[n]);
        assert(forall|i: int| 0 <= i < n ==> #[trigger] d[i] == s[i]);
        assert(min_x2(s) == imin(min_x2(d), s[n].x as int));
        assert(max_x2(s) == imax(max_x2(d), s[n].x as int));
        assert(min_y2(s) == imin(min_y2(d), s[n].y as int));
        assert(max_y2(s) == imax(max_y2(d), s[n].y as int));
        assert forall|i: int|
            0 <= i < s.len() implies min_x2(s) <= #[trigger] s[i].x && s[i].x <= max_x2(s)
            && min_y2(s) <= s[i].y && s[i].y <= max_y2(s) by {
            if i < n {
                assert(d[i] == s[i]);
            }
        }
        if min_x2(d) <= s[n].x {
            let k = choose|k: int| 0 <= k < d.len() && #[trigger] d[k].x == min_x2(d);
            assert(s[k].x == min_x2(s));
        } else {
            assert(s[n].x == min_x2(s));
        }
        if max_x2(d) >= s[n].x {
            let k = choose|k: int| 0 <= k < d.len() && #[trigger] d[k].x == max_x2(d);
            assert(s[k].x == max_x2(s));
        } else {
            assert(s[n].x == max_x2(s));
        }
        if min_y2(d) <= s[n].y {
            let k = choose|k: int| 0 <= k < d.len() && #[trigger] d[k].y == min_y2(d);
            assert(s[k].y == min_y2(s));
        } else {
            assert(s[n].y == min_y2(s));
        }
        if max_y2(d) >= s[n].y {
            let k = choose|k: int| 0 <= k < d.len() && #[trigger] d[k].y == max_y2(d);
            assert(s[k].y == max_y2(s));
        } else {
            assert(s[n].y == max_y2(s));
        }
    }
}

/// Over a bounded point set the box extremes are ordered and bounded.
pub proof fn lemma_bbox2_bounded(s: Seq<Point2>, lim: int)
    requires
        s.len() >= 1,
        forall|i: int| 0 <= i < s.len() ==> p2_in(#[trigger] s[i], lim),
    ensures
        -lim <= min_x2(s) <= max_x2(s) <= lim,
        -lim <= min_y2(s) <= max_y2(s) <= lim,
{
    lemma_bbox2(s);
    assert(min_x2(s) <= s[0].x && s[0].x <= max_x2(s) && min_y2(s) <= s[0].y && s[0].y <= max_y2(
        s,
    ));
    let kx0 = choose|k: int| 0 <= k < s.len() && #[trigger] s[k].x == min_x2(s);
    assert(p2_in(s[kx0], lim));
    let kx1 = choose|k: int| 0 <= k < s.len() && #[trigger] s[k].x == max_x2(s);
    assert(p2_in(s[kx1], lim));
    let ky0 = choose|k: int| 0 <= k < s.len() && #[trigger] s[k].y == min_y2(s);
    assert(p2_in(s[ky0], lim));
    let ky1 = choose|k: int| 0 <= k < s.len() && #[trigger] s[k].y == max_y2(s);
    assert(p2_in(s[ky1], lim));
}

/// Bounding box of a non-empty 2D point list: `(min_x, min_y, max_x, max_y)`.
pub fn bbox2(points: &Vec<Point2>) -> (r: (i64, i64, i64, i64))
    requires
        points@.len() >= 1,
    ensures
        r.0 == min_x2(points@),
        r.1 == min_y2(points@),
        r.2 == max_x2(points@),
        r.3 == max_y2(points@),
{
    let mut min_x: i64 = points[0].x;
    let mut min_y: i64 = points[0].y;
    let mut max_x: i64 = points[0].x;
    let mut max_y: i64 = points[0].y;
    let mut i: usize = 1;
    while i < points.len()
        invariant
            1 <= i <= points@.len(),
            min_x == min_x2(points@.take(i as int)),
            min_y == min_y2(points@.take(i as int)),
            max_x == max_x2(points@.take(i as int)),
            max_y == max_y2(points@.take(i as int)),
        decreases points@.len() - i,
    {
        let p = points[i];
        proof {
            assert(points@.take(i + 1).drop_last() =~= points@.take(i as int));
            assert(points@.take(i + 1).last() == points@[i as int]);
        }
        if p.x < min_x {
            min_x = p.x;
        }
        if p.y < min_y {
            min_y = p.y;
        }
        if p.x > max_x {
            max_x = p.x;
        }
        if p.y > max_y {
            max_y = p.y;
        }
        i = i + 1;
    }
    proof {
        assert(points@.take(points@.len() as int) =~= points@);
    }
    (min_x, min_y, max_x, max_y)
}

/// Bound on crop centers and sides, milli-pixels (16000 px).
pub const CROP_LIMIT: i64 = 16_000_000;

/// Bound on crop-space landmark coordinates fed to projection,
/// milli-units (twice the crop on each side).
pub const LM_LIMIT: i64 = 2000;

/// How a square, possibly rotated crop was taken from the source frame:
/// center and side in milli-pixels, rotation as a per-mille unit vector
/// `(rot_cos, rot_sin)`.
#[derive(Clone, Copy, Debug, PartialEq, Eq, Structural)]
pub struct CropTransform {
    pub cx: i64,
    pub cy: i64,
    pub side: i64,
    pub rot_cos: i64,
    pub rot_sin: i64,
}

impl CropTransform {
    pub open spec fn wf(self) -> bool {
        &&& -CROP_LIMIT <= self.cx <= CROP_LIMIT
        &&& -CROP_LIMIT <= self.cy <= CROP_LIMIT
        &&& 1 <= self.side <= CROP_LIMIT
        &&& -1000 <= self.rot_cos <= 1000
        &&& -1000 <= self.rot_sin <= 1000
    }
}

/// Build a well-formed crop transform, clamping each field into the
/// fixed-point domain.
pub fn make_transform(cx: i64, cy: i64, side: i64, rot_cos: i64, rot_sin: i64) -> (r:
    CropTransform)
    ensures
        r.cx == iclamp(cx as int, -CROP_LIMIT as int, CROP_LIMIT as int),
        r.cy == iclamp(cy as int, -CROP_LIMIT as int, CROP_LIMIT as int),
        r.side == iclamp(side as int, 1, CROP_LIMIT as int),
        r.rot_cos == iclamp(rot_cos as int, -1000, 1000),
        r.rot_sin == iclamp(rot_sin as int, -1000, 1000),
        r.wf(),
{
    CropTransform {
        cx: clamp_i64(cx, -CROP_LIMIT, CROP_LIMIT),
        cy: clamp_i64(cy, -CROP_LIMIT, CROP_LIMIT),
        side: clamp_i64(side, 1, CROP_LIMIT),
        rot_cos: clamp_i64(rot_cos, -1000, 1000),
        rot_sin: clamp_i64(rot_sin, -1000, 1000),
    }
}

/// Clamp `x` into `[lo, hi]`.
pub fn clamp_i64(x: i64, lo: i64, hi: i64) -> (r: i64)
    requires
        lo <= hi,
    ensures
        r == iclamp(x as int, lo as int, hi as int),
{
    if x < lo {
        lo
    } else if x > hi {
        hi
    } else {
        x
    }
}

/// Frame x coordinate of a crop-space landmark: translate to the crop
/// center, scale by the side, and de-rotate.
pub open spec fn spec_project_x(p: Point3, t: CropTransform) -> int {
    let dx = div_trunc((p.x - 500) * t.side, 1000);
    let dy = div_trunc((p.y - 500) * t.side, 1000);
    t.cx + div_trunc(dx * t.rot_cos - dy * t.rot_sin, 1000)
}

/// Frame y coordinate of a crop-space landmark.
pub open spec fn spec_project_y(p: Point3, t: CropTransform) -> int {
    let dx = div_trunc((p.x - 500) * t.side, 1000);
    let dy = div_trunc((p.y - 500) * t.side, 1000);
    t.cy + div_trunc(dx * t.rot_sin + dy * t.rot_cos, 1000)
}

/// Map one crop-space landmark back to frame milli-pixels; mirrors
/// `spec_project_x` / `spec_project_y`.
pub fn project_point(p: Point3, t: &CropTransform) -> (r: Point2)
    requires
        t.wf(),
        p3_in(p, LM_LIMIT as int),
    ensures
        r.x == spec_project_x(p, *t),
        r.y == spec_project_y(p, *t),
        p2_in(r, PX_LIMIT as int),
{
    proof {
        assert(-40_000_000_000 <= ((p.x - 500) as int) * (t.side as int) <= 40_000_000_000
            && -40_000_000_000 <= ((p.y - 500) as int) * (t.side as int) <= 40_000_000_000)
            by (nonlinear_arith)
            requires
                -2500 <= p.x - 500 <= 2500,
                -2500 <= p.y - 500 <= 2500,
                1 <= t.side <= CROP_LIMIT as int,
        ;
    }
    let dx = div_trunc_i64((p.x - 500) * t.side, 1000);
    let dy = div_trunc_i64((p.y - 500) * t.side, 1000);
    proof {
        crate::numeric::lemma_div_trunc_le(((p.x - 500) as int) * (t.side as int), 40_000_000,
            1000);
        crate::numeric::lemma_div_trunc_le(((p.y - 500) as int) * (t.side as int), 40_000_000,
            1000);
        assert(-40_000_000_000 <= (dx as int) * (t.rot_cos as int) <= 40_000_000_000
            && -40_000_000_000 <= (dy as int) * (t.rot_sin as int) <= 40_000_000_000
            && -40_000_000_000 <= (dx as int) * (t.rot_sin as int) <= 40_000_000_000
            && -40_000_000_000 <= (dy as int) * (t.rot_cos as int) <= 40_000_000_000)
            by (nonlinear_arith)
            requires
                -40_000_000 <= dx <= 40_000_000,
                -40_000_000 <= dy <= 40_000_000,
                -1000 <= t.rot_cos <= 1000,
                -1000 <= t.rot_sin <= 1000,
        ;
        crate::numeric::lemma_div_trunc_le(
            (dx as int) * (t.rot_cos as int) - (dy as int) * (t.rot_sin as int),
            80_000_000,
            1000,
        );
        crate::numeric::lemma_div_trunc_le(
            (dx as int) * (t.rot_sin as int) + (dy as int) * (t.rot_cos as int),
            80_000_000,
            1000,
        );
    }
    let rx = t.cx + div_trunc_i64(dx * t.rot_cos - dy * t.rot_sin, 1000);
    let ry = t.cy + div_trunc_i64(dx * t.rot_sin + dy * t.rot_cos, 1000);
    Point2 { x: rx, y: ry }
}

/// Project every landmark of a crop back into frame milli-pixels.
pub fn project_landmarks(landmarks: &Vec<Point3>, t: &CropTransform) -> (r: Vec<Point2>)
    requires
        t.wf(),
        forall|i: int|
            0 <= i < landmarks@.len() ==> p3_in(#[trigger] landmarks@[i], LM_LIMIT as int),
    ensures
        r@.len() == landmarks@.len(),
        forall|i: int|
            0 <= i < r@.len() ==> #[trigger] r@[i].x == spec_project_x(landmarks@[i], *t)
                && r@[i].y == spec_project_y(landmarks@[i], *t),
        forall|i: int| 0 <= i < r@.len() ==> p2_in(#[trigger] r@[i], PX_LIMIT as int),
{
    let mut out: Vec<Point2> = Vec::new();
    let mut i: usize = 0;
    while i < landmarks.len()
        invariant
            0 <= i <= landmarks@.len(),
            t.wf(),
            forall|j: int|
                0 <= j < landmarks@.len() ==> p3_in(#[trigger] landmarks@[j], LM_LIMIT as int),
            out@.len() == i,
            forall|j: int|
                0 <= j < i ==> #[trigger] out@[j].x == spec_project_x(landmarks@[j], *t)
                    && out@[j].y == spec_project_y(landmarks@[j], *t),
            forall|j: int| 0 <= j < i ==> p2_in(#[trigger] out@[j], PX_LIMIT as int),
        decreases landmarks@.len() - i,
    {
        let p = project_point(landmarks[i], t);
        out.push(p);
        i = i + 1;
    }
    out
}

/// Largest side of the bounding box of projected points, floored at one
/// pixel (1000 milli-pixels).
pub open spec fn spec_projected_span(s: Seq<Point2>) -> int {
    imax(imax(max_x2(s) - min_x2(s), max_y2(s) - min_y2(s)), 1000)
}

/// Span of a projected landmark set; mirrors `spec_projected_span`.
pub fn projected_span(points: &Vec<Point2>) -> (r: i64)
    requires
        points@.len() >= 1,
        forall|i: int| 0 <= i < points@.len() ==> p2_in(#[trigger] points@[i], PX_LIMIT as int),
    ensures
        r == spec_projected_span(points@),
        1000 <= r <= 200_000_000,
{
    let (min_x, min_y, max_x, max_y) = bbox2(points);
    proof {
        lemma_bbox2(points@);
    }
    let span_x = max_x - min_x;
    let span_y = max_y - min_y;
    let mut span = if span_x > span_y {
        span_x
    } else {
        span_y
    };
    if span < 1000 {
        span = 1000;
    }
    span
}

/// Rotation cosine, per-mille, of the crop orientation whose hand axis is
/// `(ax, ay)` in image coordinates (y grows downward).
pub open spec fn spec_rot_cos(ax: int, ay: int) -> int {
    div_trunc(-ay * 1000, sqrt_floor((ax * ax + ay * ay) as nat) as int)
}

/// Rotation sine, per-mille, of the crop orientation for axis `(ax, ay)`.
pub open spec fn spec_rot_sin(ax: int, ay: int) -> int {
    div_trunc(ax * 1000, sqrt_floor((ax * ax + ay * ay) as nat) as int)
}

/// Per-mille rotation unit vector for a hand axis; mirrors
/// `spec_rot_cos` / `spec_rot_sin`.
pub fn rot_from_axis(ax: i64, ay: i64) -> (r: (i64, i64))
    requires
        -400_000_000 <= ax <= 400_000_000,
        -400_000_000 <= ay <= 400_000_000,
        !(ax == 0 && ay == 0),
    ensures
        r.0 == spec_rot_cos(ax as int, ay as int),
        r.1 == spec_rot_sin(ax as int, ay as int),
        -1000 <= r.0 <= 1000,
        -1000 <= r.1 <= 1000,
{
    proof {
        assert(0 <= (ax as int) * (ax as int) <= 160_000_000_000_000_000 && 0 <= (ay as int) * (
        ay as int) <= 160_000_000_000_000_000 && (ax as int) * (ax as int) + (ay as int) * (
        ay as int) >= 1) by (nonlinear_arith)
            requires
                -400_000_000 <= ax <= 400_000_000,
                -400_000_000 <= ay <= 400_000_000,
                !(ax == 0 && ay == 0),
        ;
    }
    let sx: u64 = ((ax as i128) * (ax as i128)) as u64;
    let sy: u64 = ((ay as i128) * (ay as i128)) as u64;
    let n: u64 = sx + sy;
    let len: u64 = isqrt(n);
    proof {
        lemma_sqrt_floor_bounds(n as nat);
        assert(len >= 1) by (nonlinear_arith)
            requires
                n >= 1,
                (n as int) < ((len + 1) as int) * ((len + 1) as int),
        ;
        assert(len <= 600_000_000) by (nonlinear_arith)
            requires
                (len as int) * (len as int) <= n as int,
                n <= 320_000_000_000_000_000u64 as int,
        ;
        assert((ax as int) * (ax as int) <= (len as int) * (len as int) + 2 * (len as int)
            && (ay as int) * (ay as int) <= (len as int) * (len as int) + 2 * (len as int))
            by (nonlinear_arith)
            requires
                (n as int) < ((len + 1) as int) * ((len + 1) as int),
                sx == (ax as int) * (ax as int),
                sy == (ay as int) * (ay as int),
                n == sx + sy,
        ;
        assert(-(len as int) <= ax as int <= len as int && -(len as int) <= ay as int
            <= len as int) by (nonlinear_arith)
            requires
                (ax as int) * (ax as int) <= (len as int) * (len as int) + 2 * (len as int),
                (ay as int) * (ay as int) <= (len as int) * (len as int) + 2 * (len as int),
                len >= 0,
        ;
        crate::numeric::lemma_div_trunc_le(-(ay as int) * 1000, 1000, len as int);
        crate::numeric::lemma_div_trunc_le((ax as int) * 1000, 1000, len as int);
    }
    let c = div_trunc_i64(-ay * 1000, len as i64);
    let s = div_trunc_i64(ax * 1000, len as i64);
    (c, s)
}

} // verus!
