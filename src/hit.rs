//! Hit-testing a path's curve. Cubic segments are flattened at eight even
//! parameter steps; coordinates are scaled by 512 so that every sample is an
//! exact integer.
use crate::geom::{integer_sqrt, isqrt, DPoint, MIN_POINT_DISTANCE};
use crate::path::PathEl;
use vstd::prelude::*;

verus! {

/// A point scaled by 512, the cube of the number of steps.
pub open spec fn scaled(p: DPoint) -> (int, int) {
    (p.x * 512, p.y * 512)
}

/// The point at parameter `k / 8` of the cubic `p0 c1 c2 p3`, scaled by 512.
pub open spec fn cubic_at(p0: DPoint, c1: DPoint, c2: DPoint, p3: DPoint, k: int) -> (int, int) {
    let j = 8 - k;
    (
        j * j * j * p0.x + 3 * j * j * k * c1.x + 3 * j * k * k * c2.x + k * k * k * p3.x,
        j * j * j * p0.y + 3 * j * j * k * c1.y + 3 * j * k * k * c2.y + k * k * k * p3.y,
    )
}

/// Whether `p` lies within the click tolerance of segment `a b` (all scaled
/// by 512), at zoom `zn / zd`: within `MIN_POINT_DISTANCE * zd / zn` design
/// units, the segment's length taken to the integer below.
pub open spec fn seg_near(a: (int, int), b: (int, int), p: (int, int), zn: int, zd: int) -> bool {
    let dx = b.0 - a.0;
    let dy = b.1 - a.1;
    let px = p.0 - a.0;
    let py = p.1 - a.1;
    let len2 = dx * dx + dy * dy;
    let dot = px * dx + py * dy;
    let tol = (MIN_POINT_DISTANCE as int) * 512 * zd;
    if len2 == 0 || dot <= 0 {
        (px * px + py * py) * (zn * zn) <= tol * tol
    } else if dot >= len2 {
        let qx = p.0 - b.0;
        let qy = p.1 - b.1;
        (qx * qx + qy * qy) * (zn * zn) <= tol * tol
    } else {
        let cross = px * dy - py * dx;
        (if cross < 0 {
            -cross
        } else {
            cross
        }) * zn <= tol * isqrt(len2 as nat)
    }
}

/// Whether one of the flattened pieces `k - 1 .. k` of a cubic, for
/// `1 <= k <= upto`, is near `p`.
pub open spec fn cubic_near(p0: DPoint, c1: DPoint, c2: DPoint, p3: DPoint, upto: int, p: (int, int), zn: int, zd: int) -> bool {
    exists|k: int|
        1 <= k <= upto && seg_near(
            #[trigger] cubic_at(p0, c1, c2, p3, k - 1),
            cubic_at(p0, c1, c2, p3, k),
            p,
            zn,
            zd,
        )
}

/// Whether element `el`, drawn from `cur` in a path that started at `start`,
/// passes near `p`.
pub open spec fn el_near(el: PathEl, cur: DPoint, start: DPoint, p: (int, int), zn: int, zd: int) -> bool {
    match el {
        PathEl::MoveTo(_) => false,
        PathEl::LineTo(q) => seg_near(scaled(cur), scaled(q), p, zn, zd),
        PathEl::CurveTo(c1, c2, q) => cubic_near(cur, c1, c2, q, 8, p, zn, zd),
        PathEl::ClosePath => seg_near(scaled(cur), scaled(start), p, zn, zd),
    }
}

/// The point the pen is at after element `el`.
pub open spec fn el_end(el: PathEl, cur: DPoint, start: DPoint) -> DPoint {
    match el {
        PathEl::MoveTo(q) => q,
        PathEl::LineTo(q) => q,
        PathEl::CurveTo(_, _, q) => q,
        PathEl::ClosePath => start,
    }
}

/// The pen position and subpath start after the first `n` elements.
pub open spec fn pen_after(els: Seq<PathEl>, n: int) -> (DPoint, DPoint)
    decreases n,
{
    if n <= 0 {
        (DPoint { x: 0, y: 0 }, DPoint { x: 0, y: 0 })
    } else {
        let (cur, start) = pen_after(els, n - 1);
        let el = els[n - 1];
        (el_end(el, cur, start), match el {
            PathEl::MoveTo(q) => q,
            _ => start,
        })
    }
}

/// Whether one of the first `n` elements passes near `p`.
pub open spec fn curve_near(els: Seq<PathEl>, n: int, p: (int, int), zn: int, zd: int) -> bool {
    exists|i: int|
        0 <= i < n && el_near(els[i], (#[trigger] pen_after(els, i)).0, pen_after(els, i).1, p, zn, zd)
}

proof fn lemma_cubic_bound(p0: DPoint, c1: DPoint, c2: DPoint, p3: DPoint, k: int)
    requires
        p0.wf(),
        c1.wf(),
        c2.wf(),
        p3.wf(),
        0 <= k <= 8,
    ensures
        -0x200000000 <= cubic_at(p0, c1, c2, p3, k).0 <= 0x200000000,
        -0x200000000 <= cubic_at(p0, c1, c2, p3, k).1 <= 0x200000000,
{
    let j = 8 - k;
    assert(j * j * j + 3 * j * j * k + 3 * j * k * k + k * k * k == 512) by (nonlinear_arith)
        requires
            j == 8 - k,
    ;
    assert(0 <= j * j * j && 0 <= 3 * j * j * k && 0 <= 3 * j * k * k && 0 <= k * k * k) by (nonlinear_arith)
        requires
            0 <= k <= 8,
            j == 8 - k,
    ;
    let (a, b, c, d) = (j * j * j, 3 * j * j * k, 3 * j * k * k, k * k * k);
    assert(-0x1000000 * (a + b + c + d) <= a * p0.x + b * c1.x + c * c2.x + d * p3.x <= 0x1000000 * (a + b + c + d)) by (nonlinear_arith)
        requires
            0 <= a && 0 <= b && 0 <= c && 0 <= d,
            -0x1000000 <= p0.x <= 0x1000000,
            -0x1000000 <= c1.x <= 0x1000000,
            -0x1000000 <= c2.x <= 0x1000000,
            -0x1000000 <= p3.x <= 0x1000000,
    ;
    assert(-0x1000000 * (a + b + c + d) <= a * p0.y + b * c1.y + c * c2.y + d * p3.y <= 0x1000000 * (a + b + c + d)) by (nonlinear_arith)
        requires
            0 <= a && 0 <= b && 0 <= c && 0 <= d,
            -0x1000000 <= p0.y <= 0x1000000,
            -0x1000000 <= c1.y <= 0x1000000,
            -0x1000000 <= c2.y <= 0x1000000,
            -0x1000000 <= p3.y <= 0x1000000,
    ;
}

fn cubic_point(p0: DPoint, c1: DPoint, c2: DPoint, p3: DPoint, k: i64) -> (r: (i64, i64))
    requires
        p0.wf(),
        c1.wf(),
        c2.wf(),
        p3.wf(),
        0 <= k <= 8,
    ensures
        r.0 == cubic_at(p0, c1, c2, p3, k as int).0,
        r.1 == cubic_at(p0, c1, c2, p3, k as int).1,
        -0x200000000 <= r.0 <= 0x200000000,
        -0x200000000 <= r.1 <= 0x200000000,
{
    proof {
        lemma_cubic_bound(p0, c1, c2, p3, k as int);
    }
    let j: i64 = 8 - k;
    assert(0 <= j * j <= 64 && 0 <= k * k <= 64 && 0 <= j * k <= 64) by (nonlinear_arith)
        requires 0 <= k <= 8, j == 8 - k;
    let jj: i64 = j * j;
    let kk: i64 = k * k;
    assert(0 <= jj * j <= 512 && 0 <= kk * k <= 512 && 0 <= jj * k <= 512 && 0 <= j * kk <= 512) by (nonlinear_arith)
        requires 0 <= k <= 8, j == 8 - k, jj == j * j, kk == k * k;
    let a: i64 = jj * j;
    let b: i64 = 3 * (jj * k);
    let c: i64 = 3 * (j * kk);
    let d: i64 = kk * k;
    assert(a == j * j * j && b == 3 * j * j * k && c == 3 * j * k * k && d == k * k * k) by (nonlinear_arith)
        requires jj == j * j, kk == k * k, a == jj * j, b == 3 * (jj * k), c == 3 * (j * kk), d == kk * k;
    assert(-0x800000000 <= a * p0.x <= 0x800000000 && -0x800000000 <= a * p0.y <= 0x800000000) by (nonlinear_arith)
        requires 0 <= a <= 512, -0x1000000 <= p0.x <= 0x1000000, -0x1000000 <= p0.y <= 0x1000000;
    assert(-0x800000000 <= b * c1.x <= 0x800000000 && -0x800000000 <= b * c1.y <= 0x800000000) by (nonlinear_arith)
        requires 0 <= b <= 1536, -0x1000000 <= c1.x <= 0x1000000, -0x1000000 <= c1.y <= 0x1000000;
    assert(-0x800000000 <= c * c2.x <= 0x800000000 && -0x800000000 <= c * c2.y <= 0x800000000) by (nonlinear_arith)
        requires 0 <= c <= 1536, -0x1000000 <= c2.x <= 0x1000000, -0x1000000 <= c2.y <= 0x1000000;
    assert(-0x800000000 <= d * p3.x <= 0x800000000 && -0x800000000 <= d * p3.y <= 0x800000000) by (nonlinear_arith)
        requires 0 <= d <= 512, -0x1000000 <= p3.x <= 0x1000000, -0x1000000 <= p3.y <= 0x1000000;
    (a * p0.x + b * c1.x + c * c2.x + d * p3.x, a * p0.y + b * c1.y + c * c2.y + d * p3.y)
}

/// Computes [`seg_near`] for coordinates of magnitude at most `2^33`.
pub fn segment_near(a: (i64, i64), b: (i64, i64), p: (i64, i64), zn: u64, zd: u64) -> (r: bool)
    requires
        -0x200000000 <= a.0 <= 0x200000000,
        -0x200000000 <= a.1 <= 0x200000000,
        -0x200000000 <= b.0 <= 0x200000000,
        -0x200000000 <= b.1 <= 0x200000000,
        -0x200000000 <= p.0 <= 0x200000000,
        -0x200000000 <= p.1 <= 0x200000000,
        1 <= zn <= 0x1000,
        1 <= zd <= 0x1000,
    ensures
        r == seg_near((a.0 as int, a.1 as int), (b.0 as int, b.1 as int), (p.0 as int, p.1 as int), zn as int, zd as int),
{
    let dx: i128 = b.0 as i128 - a.0 as i128;
    let dy: i128 = b.1 as i128 - a.1 as i128;
    let px: i128 = p.0 as i128 - a.0 as i128;
    let py: i128 = p.1 as i128 - a.1 as i128;
    let qx: i128 = p.0 as i128 - b.0 as i128;
    let qy: i128 = p.1 as i128 - b.1 as i128;
    assert(0 <= dx * dx <= 0x1000000000000000000 && 0 <= dy * dy <= 0x1000000000000000000) by (nonlinear_arith)
        requires -0x400000000 <= dx <= 0x400000000, -0x400000000 <= dy <= 0x400000000;
    assert(0 <= px * px <= 0x1000000000000000000 && 0 <= py * py <= 0x1000000000000000000) by (nonlinear_arith)
        requires -0x400000000 <= px <= 0x400000000, -0x400000000 <= py <= 0x400000000;
    assert(0 <= qx * qx <= 0x1000000000000000000 && 0 <= qy * qy <= 0x1000000000000000000) by (nonlinear_arith)
        requires -0x400000000 <= qx <= 0x400000000, -0x400000000 <= qy <= 0x400000000;
    assert(-0x1000000000000000000 <= px * dx <= 0x1000000000000000000 && -0x1000000000000000000 <= py * dy <= 0x1000000000000000000) by (nonlinear_arith)
        requires -0x400000000 <= dx <= 0x400000000, -0x400000000 <= dy <= 0x400000000,
            -0x400000000 <= px <= 0x400000000, -0x400000000 <= py <= 0x400000000;
    assert(-0x1000000000000000000 <= px * dy <= 0x1000000000000000000 && -0x1000000000000000000 <= py * dx <= 0x1000000000000000000) by (nonlinear_arith)
        requires -0x400000000 <= dx <= 0x400000000, -0x400000000 <= dy <= 0x400000000,
            -0x400000000 <= px <= 0x400000000, -0x400000000 <= py <= 0x400000000;
    let len2: i128 = dx * dx + dy * dy;
    let dot: i128 = px * dx + py * dy;
    assert(1 <= zn * zn <= 0x1000000) by (nonlinear_arith) requires 1 <= zn <= 0x1000;
    let zn2: i128 = zn as i128 * zn as i128;
    let tol: i128 = zd as i128 * 5120;
    assert(0 <= tol <= 0x10000000);
    assert(tol * tol <= 0x100000000000000) by (nonlinear_arith) requires 0 <= tol <= 0x10000000;
    assert(zn2 == zn * zn);
    if len2 == 0 || dot <= 0 {
        let d2: i128 = px * px + py * py;
        assert(d2 * zn2 <= 0x2000000000000000000 * 0x1000000) by (nonlinear_arith)
            requires 0 <= d2 <= 0x2000000000000000000, 1 <= zn2 <= 0x1000000;
        let r = d2 * zn2 <= tol * tol;
        let ghost sa = (a.0 as int, a.1 as int);
        let ghost sb = (b.0 as int, b.1 as int);
        let ghost sp = (p.0 as int, p.1 as int);
        assert(sb.0 - sa.0 == dx && sb.1 - sa.1 == dy && sp.0 - sa.0 == px && sp.1 - sa.1 == py);
        assert((sb.0 - sa.0) * (sb.0 - sa.0) + (sb.1 - sa.1) * (sb.1 - sa.1) == len2);
        assert((sp.0 - sa.0) * (sb.0 - sa.0) + (sp.1 - sa.1) * (sb.1 - sa.1) == dot);
        assert(((sp.0 - sa.0) * (sp.0 - sa.0) + (sp.1 - sa.1) * (sp.1 - sa.1)) * (zn * zn) == d2 * zn2);
        assert(tol * tol == (MIN_POINT_DISTANCE as int) * 512 * (zd as int) * ((MIN_POINT_DISTANCE as int) * 512 * (zd as int))) by (nonlinear_arith)
            requires tol == zd * 5120;
        assert(seg_near(sa, sb, sp, zn as int, zd as int) == (((sp.0 - sa.0) * (sp.0 - sa.0) + (sp.1 - sa.1) * (sp.1 - sa.1)) * (zn * zn) <= tol * tol));
        assert(r == seg_near(sa, sb, sp, zn as int, zd as int));
        r
    } else if dot >= len2 {
        let d2: i128 = qx * qx + qy * qy;
        assert(d2 * zn2 <= 0x2000000000000000000 * 0x1000000) by (nonlinear_arith)
            requires 0 <= d2 <= 0x2000000000000000000, 1 <= zn2 <= 0x1000000;
        let r = d2 * zn2 <= tol * tol;
        assert(r == seg_near((a.0 as int, a.1 as int), (b.0 as int, b.1 as int), (p.0 as int, p.1 as int), zn as int, zd as int));
        r
    } else {
        let cross: i128 = px * dy - py * dx;
        let ac: i128 = if cross < 0 {
            -cross
        } else {
            cross
        };
        let l = integer_sqrt(len2 as u128);
        proof {
            crate::geom::lemma_isqrt_unique(len2 as nat, l as nat);
        }
        assert(ac * zn <= 0x2000000000000000000 * 0x1000) by (nonlinear_arith)
            requires 0 <= ac <= 0x2000000000000000000, 1 <= zn <= 0x1000;
        assert(tol * l <= 0x10000000 * 0x40000000000) by (nonlinear_arith)
            requires 0 <= tol <= 0x10000000, 0 <= l < 0x40000000000;
        let r = ac * zn as i128 <= tol * l as i128;
        assert(r == seg_near((a.0 as int, a.1 as int), (b.0 as int, b.1 as int), (p.0 as int, p.1 as int), zn as int, zd as int));
        r
    }
}

fn el_hit(el: PathEl, cur: DPoint, start: DPoint, p: (i64, i64), zn: u64, zd: u64) -> (r: bool)
    requires
        el.points_wf(),
        cur.wf(),
        start.wf(),
        -0x200000000 <= p.0 <= 0x200000000,
        -0x200000000 <= p.1 <= 0x200000000,
        1 <= zn <= 0x1000,
        1 <= zd <= 0x1000,
    ensures
        r == el_near(el, cur, start, (p.0 as int, p.1 as int), zn as int, zd as int),
{
    match el {
        PathEl::MoveTo(_) => false,
        PathEl::LineTo(q) => {
            let r = segment_near((cur.x * 512, cur.y * 512), (q.x * 512, q.y * 512), p, zn, zd);
            assert(((cur.x * 512) as int, (cur.y * 512) as int) == scaled(cur));
            assert(((q.x * 512) as int, (q.y * 512) as int) == scaled(q));
            r
        },
        PathEl::ClosePath => {
            let r = segment_near((cur.x * 512, cur.y * 512), (start.x * 512, start.y * 512), p, zn, zd);
            assert(((cur.x * 512) as int, (cur.y * 512) as int) == scaled(cur));
            assert(((start.x * 512) as int, (start.y * 512) as int) == scaled(start));
            r
        },
        PathEl::CurveTo(c1, c2, q) => {
            let ghost sp = (p.0 as int, p.1 as int);
            let mut k: i64 = 1;
            while k <= 8
                invariant
                    1 <= k <= 9,
                    cur.wf(),
                    c1.wf(),
                    c2.wf(),
                    q.wf(),
                    -0x200000000 <= p.0 <= 0x200000000,
                    -0x200000000 <= p.1 <= 0x200000000,
                    1 <= zn <= 0x1000,
                    1 <= zd <= 0x1000,
                    sp == (p.0 as int, p.1 as int),
                    el == PathEl::CurveTo(c1, c2, q),
                    !cubic_near(cur, c1, c2, q, k - 1, sp, zn as int, zd as int),
                decreases 9 - k,
            {
                let a = cubic_point(cur, c1, c2, q, k - 1);
                let b = cubic_point(cur, c1, c2, q, k);
                assert((a.0 as int, a.1 as int) == cubic_at(cur, c1, c2, q, k - 1));
                assert((b.0 as int, b.1 as int) == cubic_at(cur, c1, c2, q, k as int));
                let hit = segment_near(a, b, p, zn, zd);
                assert(hit == seg_near(cubic_at(cur, c1, c2, q, k - 1), cubic_at(cur, c1, c2, q, k as int), sp, zn as int, zd as int));
                if hit {
                    assert(cubic_near(cur, c1, c2, q, 8, sp, zn as int, zd as int));
                    return true;
                }
                proof {
                    assert forall|j: int| 1 <= j <= k implies !seg_near(
                        #[trigger] cubic_at(cur, c1, c2, q, j - 1),
                        cubic_at(cur, c1, c2, q, j),
                        sp,
                        zn as int,
                        zd as int,
                    ) by {
                        if j < k {
                            assert(!cubic_near(cur, c1, c2, q, k - 1, sp, zn as int, zd as int));
                        }
                    }
                }
                k += 1;
            }
            false
        },
    }
}

/// Whether the curve `els` passes within the click tolerance of `p` (scaled
/// by 512) at zoom `zn / zd`.
pub fn curve_hit(els: &Vec<PathEl>, p: (i64, i64), zn: u64, zd: u64) -> (r: bool)
    requires
        forall|i: int| 0 <= i < els@.len() ==> (#[trigger] els@[i]).points_wf(),
        -0x200000000 <= p.0 <= 0x200000000,
        -0x200000000 <= p.1 <= 0x200000000,
        1 <= zn <= 0x1000,
        1 <= zd <= 0x1000,
    ensures
        r == curve_near(els@, els@.len() as int, (p.0 as int, p.1 as int), zn as int, zd as int),
{
    let ghost sp = (p.0 as int, p.1 as int);
    let mut cur = DPoint { x: 0, y: 0 };
    let mut start = DPoint { x: 0, y: 0 };
    let mut i: usize = 0;
    while i < els.len()
        invariant
            forall|j: int| 0 <= j < els@.len() ==> (#[trigger] els@[j]).points_wf(),
            -0x200000000 <= p.0 <= 0x200000000,
            -0x200000000 <= p.1 <= 0x200000000,
            1 <= zn <= 0x1000,
            1 <= zd <= 0x1000,
            i <= els@.len(),
            (cur, start) == pen_after(els@, i as int),
            cur.wf(),
            start.wf(),
            sp == (p.0 as int, p.1 as int),
            !curve_near(els@, i as int, sp, zn as int, zd as int),
        decreases els@.len() - i,
    {
        let el = els[i];
        assert(el.points_wf());
        if el_hit(el, cur, start, p, zn, zd) {
            assert(el_near(els@[i as int], pen_after(els@, i as int).0, pen_after(els@, i as int).1, sp, zn as int, zd as int));
            return true;
        }
        proof {
            assert forall|j: int| 0 <= j < i + 1 implies !el_near(els@[j], (#[trigger] pen_after(els@, j)).0, pen_after(els@, j).1, sp, zn as int, zd as int) by {
                if j < i {
                    assert(!curve_near(els@, i as int, sp, zn as int, zd as int));
                }
            }
        }
        let next_start = match el {
            PathEl::MoveTo(q) => q,
            _ => start,
        };
        cur = match el {
            PathEl::MoveTo(q) => q,
            PathEl::LineTo(q) => q,
            PathEl::CurveTo(_, _, q) => q,
            PathEl::ClosePath => start,
        };
        start = next_start;
        i += 1;
    }
    false
}

} // verus!
