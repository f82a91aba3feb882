//! The outline reconstructor: walking each contour cyclically from its
//! first on-curve point, inserts a synthetic midpoint between adjacent
//! same-type points (both on-curve or both off-curve), yielding an
//! alternating sequence, and flattens the resulting quadratic segments
//! into polylines at a configurable resolution.
//!
//! All arithmetic is exact: reconstructed points carry coordinates
//! doubled (so midpoints are whole numbers), and flattened points carry
//! coordinates further scaled by the square of the resolution.  A
//! consumer divides by `2 * res * res` when converting to its own
//! coordinate space.

use vstd::prelude::*;
use vstd::arithmetic::div_mod::{lemma_add_mod_noop, lemma_small_mod};
use crate::glyph::{Glyph, Point};

verus! {

/// The default flattening resolution: points per quadratic segment.
pub const CURVE_RES: usize = 10;

/// Where contour `k`'s point range starts: index 0 for the first contour,
/// one past the previous contour's end index thereafter.
pub open spec fn contour_start(ends: Seq<u16>, k: int) -> int {
    if k == 0 {
        0
    } else {
        ends[k - 1] + 1
    }
}

/// The points of contour `k` of a glyph, in order.
pub open spec fn contour_seq(g: Glyph, k: int) -> Seq<(Point, bool)> {
    g.coordinates@.subrange(
        contour_start(g.contour_end_pts@, k),
        g.contour_end_pts@[k] + 1,
    )
}

/// A glyph the reconstructor can walk: contour-end indices strictly
/// increasing, the point list exactly covering them, and every
/// coordinate within the range the decoder produces.
pub open spec fn glyph_wf(g: Glyph) -> bool {
    &&& forall|i: int|
        0 <= i < g.contour_end_pts@.len() - 1 ==> (#[trigger] g.contour_end_pts@[i])
            < g.contour_end_pts@[i + 1]
    &&& g.coordinates@.len() == (if g.contour_end_pts@.len() == 0 {
        0int
    } else {
        g.contour_end_pts@.last() + 1
    })
    &&& forall|j: int|
        0 <= j < g.coordinates@.len() ==> -0x8000_0000 <= (#[trigger] g.coordinates@[j]).0.x
            <= 0x8000_0000 && -0x8000_0000 <= g.coordinates@[j].0.y <= 0x8000_0000
}

/// Whether a glyph is well formed, checked at run time.
pub fn check_well_formed(g: &Glyph) -> (r: bool)
    ensures
        r == glyph_wf(*g),
{
    let n_ends = g.contour_end_pts.len();
    let mut i: usize = 0;
    while n_ends > 0 && i < n_ends - 1
        invariant
            i <= n_ends,
            n_ends == g.contour_end_pts@.len(),
            forall|j: int|
                0 <= j < i ==> (#[trigger] g.contour_end_pts@[j]) < g.contour_end_pts@[j + 1],
        decreases n_ends - i,
    {
        if g.contour_end_pts[i] >= g.contour_end_pts[i + 1] {
            return false;
        }
        i = i + 1;
    }
    let expected_len: usize = if n_ends == 0 {
        0
    } else {
        g.contour_end_pts[n_ends - 1] as usize + 1
    };
    if g.coordinates.len() != expected_len {
        return false;
    }
    let n_pts = g.coordinates.len();
    let mut j: usize = 0;
    while j < n_pts
        invariant
            j <= n_pts,
            n_pts == g.coordinates@.len(),
            forall|q: int|
                0 <= q < j ==> -0x8000_0000 <= (#[trigger] g.coordinates@[q]).0.x <= 0x8000_0000
                    && -0x8000_0000 <= g.coordinates@[q].0.y <= 0x8000_0000,
        decreases n_pts - j,
    {
        let (p, _) = g.coordinates[j];
        if p.x < -0x8000_0000 || p.x > 0x8000_0000 || p.y < -0x8000_0000 || p.y > 0x8000_0000 {
            return false;
        }
        j = j + 1;
    }
    true
}

/// The index, scanning from `k`, of the first on-curve point of a
/// contour, or the contour's length when no point is on-curve (walking
/// from there is the same as walking from index 0).
pub open spec fn first_on_offset(cs: Seq<(Point, bool)>, k: int) -> int
    decreases cs.len() - k,
{
    if k < 0 || k >= cs.len() {
        cs.len() as int
    } else if cs[k].1 {
        k
    } else {
        first_on_offset(cs, k + 1)
    }
}

/// What step `i` of the cyclic walk from `off` contributes: the current
/// point doubled, followed by the exact midpoint (the coordinate sums)
/// when the current and next point share their on-curve classification.
pub open spec fn implied_step(cs: Seq<(Point, bool)>, off: int, i: int) -> Seq<(int, int)> {
    let n = cs.len() as int;
    let a = cs[(i + off) % n];
    let b = cs[(i + off + 1) % n];
    if a.1 == b.1 {
        seq![(2 * a.0.x, 2 * a.0.y), (a.0.x + b.0.x, a.0.y + b.0.y)]
    } else {
        seq![(2 * a.0.x, 2 * a.0.y)]
    }
}

/// The reconstructed contour from step `i` on: each input point (in
/// doubled coordinates) with the synthetic midpoints inserted.
pub open spec fn implied_from(cs: Seq<(Point, bool)>, off: int, i: int) -> Seq<(int, int)>
    decreases cs.len() - i,
{
    if i < 0 || i >= cs.len() {
        Seq::empty()
    } else {
        implied_step(cs, off, i) + implied_from(cs, off, i + 1)
    }
}

/// The whole reconstructed contour, walked cyclically from the first
/// on-curve point, in doubled coordinates.
pub open spec fn with_implied(cs: Seq<(Point, bool)>) -> Seq<(int, int)> {
    implied_from(cs, first_on_offset(cs, 0), 0)
}

/// A contour that already alternates between on-curve and off-curve
/// points, cyclically: no two adjacent points share a classification.
pub open spec fn alternating(cs: Seq<(Point, bool)>) -> bool {
    forall|i: int|
        0 <= i < cs.len() ==> (#[trigger] cs[i]).1 != cs[(i + 1) % (cs.len() as int)].1
}

/// The first on-curve scan stays between its start and the length.
proof fn lemma_first_on_bounds(cs: Seq<(Point, bool)>, k: int)
    requires
        0 <= k <= cs.len(),
    ensures
        k <= first_on_offset(cs, k) <= cs.len(),
    decreases cs.len() - k,
{
    if k < cs.len() && !cs[k].1 {
        lemma_first_on_bounds(cs, k + 1);
    }
}

/// Each step of a walk over an alternating contour contributes exactly
/// one point: the two neighbours it looks at never share a type.
proof fn lemma_alternating_step(cs: Seq<(Point, bool)>, off: int, i: int)
    requires
        cs.len() >= 1,
        0 <= off <= cs.len(),
        0 <= i < cs.len(),
        alternating(cs),
    ensures
        implied_step(cs, off, i).len() == 1,
{
    let n = cs.len() as int;
    if n == 1 {
        assert(cs[0].1 != cs[(0int + 1) % 1int].1);
        assert(false);
    } else {
        let ia = (i + off) % n;
        lemma_add_mod_noop(i + off, 1, n);
        lemma_small_mod(1nat, n as nat);
        assert((ia + 1) % n == (i + off + 1) % n);
        assert(cs[ia].1 != cs[(ia + 1) % n].1);
    }
}

/// A walk over an alternating contour from step `i` contributes one
/// point per remaining step: the walked-to input point, doubled.
proof fn lemma_alternating_from(cs: Seq<(Point, bool)>, off: int, i: int)
    requires
        cs.len() >= 1,
        0 <= off <= cs.len(),
        0 <= i <= cs.len(),
        alternating(cs),
    ensures
        implied_from(cs, off, i).len() == cs.len() - i,
        forall|j: int|
            0 <= j < cs.len() - i ==> #[trigger] implied_from(cs, off, i)[j] == (
                2 * cs[(i + j + off) % (cs.len() as int)].0.x,
                2 * cs[(i + j + off) % (cs.len() as int)].0.y,
            ),
    decreases cs.len() - i,
{
    if i < cs.len() {
        lemma_alternating_step(cs, off, i);
        lemma_alternating_from(cs, off, i + 1);
    }
}

/// Reconstruction changes nothing but scale on a contour that already
/// alternates: the reconstructed sequence has exactly one point per
/// input point — zero synthetic midpoints — and each is the walked-to
/// input point, doubled.
pub proof fn lemma_alternating_no_midpoints(cs: Seq<(Point, bool)>)
    requires
        cs.len() >= 1,
        alternating(cs),
    ensures
        with_implied(cs).len() == cs.len(),
        forall|j: int|
            0 <= j < cs.len() ==> #[trigger] with_implied(cs)[j] == (
                2 * cs[(j + first_on_offset(cs, 0)) % (cs.len() as int)].0.x,
                2 * cs[(j + first_on_offset(cs, 0)) % (cs.len() as int)].0.y,
            ),
{
    lemma_first_on_bounds(cs, 0);
    lemma_alternating_from(cs, first_on_offset(cs, 0), 0);
}

/// Strictly increasing adjacent contour-end indices order every pair.
proof fn lemma_ends_increasing(ends: Seq<u16>, i: int, j: int)
    requires
        forall|q: int| 0 <= q < ends.len() - 1 ==> (#[trigger] ends[q]) < ends[q + 1],
        0 <= i <= j < ends.len(),
    ensures
        ends[i] <= ends[j],
    decreases j - i,
{
    if i < j {
        lemma_ends_increasing(ends, i, j - 1);
        assert(ends[j - 1] < ends[j]);
    }
}

/// Reconstructs one contour: walks it cyclically from its first on-curve
/// point (from its start when no point is on-curve) and emits each point
/// in doubled coordinates, inserting the exact midpoint between adjacent
/// same-type points.
pub fn reconstruct_contour(cs: &Vec<(Point, bool)>) -> (r: Vec<Point>)
    requires
        1 <= cs@.len() <= 0x10000,
        forall|j: int|
            0 <= j < cs@.len() ==> -0x8000_0000 <= (#[trigger] cs@[j]).0.x <= 0x8000_0000
                && -0x8000_0000 <= cs@[j].0.y <= 0x8000_0000,
    ensures
        r@.map_values(|p: Point| (p.x as int, p.y as int)) == with_implied(cs@),
        cs@.len() <= r@.len() <= 2 * cs@.len(),
        forall|j: int|
            0 <= j < r@.len() ==> -0x1_0000_0000 <= (#[trigger] r@[j]).x <= 0x1_0000_0000
                && -0x1_0000_0000 <= r@[j].y <= 0x1_0000_0000,
{
    let len = cs.len();
    let mut off: usize = 0;
    while off < len && !cs[off].1
        invariant
            off <= len,
            first_on_offset(cs@, 0) == first_on_offset(cs@, off as int),
        decreases len - off,
    {
        off = off + 1;
    }
    assert(off == first_on_offset(cs@, 0));
    let ghost offi = off as int;
    let mut out: Vec<Point> = Vec::new();
    let mut i: usize = 0;
    proof {
        assert(Seq::<(int, int)>::empty() + implied_from(cs@, offi, 0) =~= implied_from(
            cs@,
            offi,
            0,
        ));
    }
    while i < len
        invariant
            i <= len,
            off <= len,
            len == cs@.len(),
            offi == off as int,
            i <= out@.len() <= 2 * i,
            implied_from(cs@, offi, 0) == out@.map_values(|p: Point| (p.x as int, p.y as int))
                + implied_from(cs@, offi, i as int),
            forall|j: int|
                0 <= j < out@.len() ==> -0x1_0000_0000 <= (#[trigger] out@[j]).x <= 0x1_0000_0000
                    && -0x1_0000_0000 <= out@[j].y <= 0x1_0000_0000,
        decreases len - i,
    {
        let ghost pre = out@.map_values(|p: Point| (p.x as int, p.y as int));
        let ia = (i + off) % len;
        let ib = (i + off + 1) % len;
        let a = cs[ia];
        let b = cs[ib];
        let doubled = Point { x: 2 * a.0.x, y: 2 * a.0.y };
        out.push(doubled);
        if a.1 == b.1 {
            let mid = Point { x: a.0.x + b.0.x, y: a.0.y + b.0.y };
            out.push(mid);
            proof {
                assert(out@.map_values(|p: Point| (p.x as int, p.y as int)) =~= pre + implied_step(
                    cs@,
                    offi,
                    i as int,
                ));
            }
        } else {
            proof {
                assert(out@.map_values(|p: Point| (p.x as int, p.y as int)) =~= pre + implied_step(
                    cs@,
                    offi,
                    i as int,
                ));
            }
        }
        i = i + 1;
        proof {
            assert(pre + (implied_step(cs@, offi, i - 1) + implied_from(cs@, offi, i as int)) =~= (
            pre + implied_step(cs@, offi, i - 1)) + implied_from(cs@, offi, i as int));
        }
    }
    proof {
        assert(out@.map_values(|p: Point| (p.x as int, p.y as int)) + Seq::<(int, int)>::empty()
            =~= out@.map_values(|p: Point| (p.x as int, p.y as int)));
    }
    out
}

/// The numerator of the quadratic Bezier point at parameter `t / n`
/// through `a` (start), `b` (control) and `c` (end): the exact value of
/// the repeated linear interpolation, scaled by `n * n`.
pub open spec fn bez_point(a: (int, int), b: (int, int), c: (int, int), t: int, n: int) -> (
    int,
    int,
) {
    (
        (n - t) * (n - t) * a.0 + 2 * t * (n - t) * b.0 + t * t * c.0,
        (n - t) * (n - t) * a.1 + 2 * t * (n - t) * b.1 + t * t * c.1,
    )
}

/// One segment's flattened points: the curve evaluated at parameters
/// `1/n` through `n/n`, each scaled by `n * n`.
pub open spec fn seg_points(a: (int, int), b: (int, int), c: (int, int), n: int) -> Seq<
    (int, int),
> {
    Seq::new(n as nat, |t: int| bez_point(a, b, c, t + 1, n))
}

/// The flattened polyline from segment start `i` on: the reconstructed
/// contour consumed two points at a time (start, control, end),
/// cyclically wrapping.
pub open spec fn flat_from(ps: Seq<(int, int)>, n: int, i: int) -> Seq<(int, int)>
    decreases ps.len() + 2 - i,
{
    if i < 0 || i >= ps.len() {
        Seq::empty()
    } else {
        let len = ps.len() as int;
        seg_points(ps[i], ps[(i + 1) % len], ps[(i + 2) % len], n) + flat_from(ps, n, i + 2)
    }
}

/// The whole flattened polyline: the contour's first point (scaled by
/// `n * n`) followed by every segment's evaluated points.
pub open spec fn flatten_spec(ps: Seq<(int, int)>, n: int) -> Seq<(int, int)> {
    seq![(ps[0].0 * n * n, ps[0].1 * n * n)] + flat_from(ps, n, 0)
}

/// Flattens one reconstructed contour into a polyline: consumes the
/// points two at a time as quadratic segments and evaluates each at
/// `res` uniform parameter steps.  Output coordinates are scaled by
/// `res * res` relative to the input (so by `2 * res * res` relative to
/// the glyph).
pub fn flatten_contour(pts: &Vec<Point>, res: usize) -> (r: Vec<Point>)
    requires
        1 <= pts@.len() <= 0x20000,
        1 <= res <= 16384,
        forall|j: int|
            0 <= j < pts@.len() ==> -0x1_0000_0000 <= (#[trigger] pts@[j]).x <= 0x1_0000_0000
                && -0x1_0000_0000 <= pts@[j].y <= 0x1_0000_0000,
    ensures
        r@.map_values(|p: Point| (p.x as int, p.y as int)) == flatten_spec(
            pts@.map_values(|p: Point| (p.x as int, p.y as int)),
            res as int,
        ),
{
    let ghost psv = pts@.map_values(|p: Point| (p.x as int, p.y as int));
    let ghost n = res as int;
    let len = pts.len();
    let mut out: Vec<Point> = Vec::new();
    proof {
        assert((res as int) * (res as int) <= 0x1000_0000) by (nonlinear_arith)
            requires
                0 <= res as int <= 16384,
        ;
    }
    let scale: i64 = (res * res) as i64;
    let first = pts[0];
    proof {
        assert((-0x1_0000_0000) * 0x1000_0000 <= first.x * scale <= 0x1_0000_0000 * 0x1000_0000)
            by (nonlinear_arith)
            requires
                -0x1_0000_0000 <= first.x <= 0x1_0000_0000,
                0 <= scale <= 0x1000_0000,
        ;
        assert((-0x1_0000_0000) * 0x1000_0000 <= first.y * scale <= 0x1_0000_0000 * 0x1000_0000)
            by (nonlinear_arith)
            requires
                -0x1_0000_0000 <= first.y <= 0x1_0000_0000,
                0 <= scale <= 0x1000_0000,
        ;
    }
    out.push(Point { x: first.x * scale, y: first.y * scale });
    proof {
        assert(scale == n * n);
        assert((first.x as int) * (scale as int) == psv[0].0 * n * n) by (nonlinear_arith)
            requires
                scale as int == n * n,
                psv[0].0 == first.x as int,
        ;
        assert((first.y as int) * (scale as int) == psv[0].1 * n * n) by (nonlinear_arith)
            requires
                scale as int == n * n,
                psv[0].1 == first.y as int,
        ;
        assert(out@.map_values(|p: Point| (p.x as int, p.y as int)) =~= seq![
            (psv[0].0 * n * n, psv[0].1 * n * n),
        ]);
    }
    let mut i: usize = 0;
    while i < len
        invariant
            i <= len + 1,
            len == pts@.len(),
            n == res as int,
            psv == pts@.map_values(|p: Point| (p.x as int, p.y as int)),
            flatten_spec(psv, n) == out@.map_values(|p: Point| (p.x as int, p.y as int))
                + flat_from(psv, n, i as int),
        decreases len + 1 - i,
    {
        let ghost pre = out@.map_values(|p: Point| (p.x as int, p.y as int));
        let a = pts[i];
        let b = pts[(i + 1) % len];
        let c = pts[(i + 2) % len];
        let ghost av = (a.x as int, a.y as int);
        let ghost bv = (b.x as int, b.y as int);
        let ghost cv = (c.x as int, c.y as int);
        let mut t: usize = 1;
        while t <= res
            invariant
                1 <= t <= res + 1,
                out@.map_values(|p: Point| (p.x as int, p.y as int)) =~= pre + seg_points(
                    av,
                    bv,
                    cv,
                    n,
                ).take(t - 1),
            decreases res + 1 - t,
        {
            let tt = t as i64;
            let nm = (res - t) as i64;
            proof {
                assert(0 <= nm * nm <= 0x1000_0000) by (nonlinear_arith)
                    requires
                        0 <= nm < 16384,
                ;
                assert(0 <= 2 * tt * nm <= 0x2000_0000) by (nonlinear_arith)
                    requires
                        0 <= nm < 16384,
                        0 < tt <= 16384,
                ;
                assert(0 <= tt * tt <= 0x1000_0000) by (nonlinear_arith)
                    requires
                        0 < tt <= 16384,
                ;
                assert((-0x1000_0000_0000_0000) <= nm * nm * a.x <= 0x1000_0000_0000_0000)
                    by (nonlinear_arith)
                    requires
                        0 <= nm < 16384,
                        -0x1_0000_0000 <= a.x <= 0x1_0000_0000,
                ;
                assert((-0x2000_0000_0000_0000) <= 2 * tt * nm * b.x <= 0x2000_0000_0000_0000)
                    by (nonlinear_arith)
                    requires
                        0 <= nm < 16384,
                        0 < tt <= 16384,
                        -0x1_0000_0000 <= b.x <= 0x1_0000_0000,
                ;
                assert((-0x1000_0000_0000_0000) <= tt * tt * c.x <= 0x1000_0000_0000_0000)
                    by (nonlinear_arith)
                    requires
                        0 < tt <= 16384,
                        -0x1_0000_0000 <= c.x <= 0x1_0000_0000,
                ;
                assert((-0x1000_0000_0000_0000) <= nm * nm * a.y <= 0x1000_0000_0000_0000)
                    by (nonlinear_arith)
                    requires
                        0 <= nm < 16384,
                        -0x1_0000_0000 <= a.y <= 0x1_0000_0000,
                ;
                assert((-0x2000_0000_0000_0000) <= 2 * tt * nm * b.y <= 0x2000_0000_0000_0000)
                    by (nonlinear_arith)
                    requires
                        0 <= nm < 16384,
                        0 < tt <= 16384,
                        -0x1_0000_0000 <= b.y <= 0x1_0000_0000,
                ;
                assert((-0x1000_0000_0000_0000) <= tt * tt * c.y <= 0x1000_0000_0000_0000)
                    by (nonlinear_arith)
                    requires
                        0 < tt <= 16384,
                        -0x1_0000_0000 <= c.y <= 0x1_0000_0000,
                ;
            }
            let px: i64 = nm * nm * a.x + 2 * tt * nm * b.x + tt * tt * c.x;
            let py: i64 = nm * nm * a.y + 2 * tt * nm * b.y + tt * tt * c.y;
            let ghost m0 = out@.map_values(|p: Point| (p.x as int, p.y as int));
            out.push(Point { x: px, y: py });
            proof {
                assert((px as int, py as int) == bez_point(av, bv, cv, t as int, n));
                assert(out@.map_values(|p: Point| (p.x as int, p.y as int)) =~= m0.push(
                    (px as int, py as int),
                ));
                assert(seg_points(av, bv, cv, n).take(t as int) =~= seg_points(
                    av,
                    bv,
                    cv,
                    n,
                ).take(t - 1).push(bez_point(av, bv, cv, t as int, n)));
                assert(m0 == pre + seg_points(av, bv, cv, n).take(t - 1));
                assert(out@.map_values(|p: Point| (p.x as int, p.y as int)) =~= pre + seg_points(
                    av,
                    bv,
                    cv,
                    n,
                ).take(t as int));
            }
            t = t + 1;
        }
        proof {
            assert(seg_points(av, bv, cv, n).take(res as int) =~= seg_points(av, bv, cv, n));
            assert(flat_from(psv, n, i as int) == seg_points(av, bv, cv, n) + flat_from(
                psv,
                n,
                i + 2,
            )) by {
                assert(psv[i as int] == av);
                assert(psv[(i + 1) % (len as int)] == bv);
                assert(psv[(i + 2) % (len as int)] == cv);
            }
            assert(pre + (seg_points(av, bv, cv, n) + flat_from(psv, n, i + 2)) =~= (pre
                + seg_points(av, bv, cv, n)) + flat_from(psv, n, i + 2));
        }
        i = i + 2;
    }
    proof {
        assert(out@.map_values(|p: Point| (p.x as int, p.y as int)) + Seq::<(int, int)>::empty()
            =~= out@.map_values(|p: Point| (p.x as int, p.y as int)));
    }
    out
}

/// Reconstructs every contour of a glyph, or `None` when the glyph is
/// not well formed.  Contour `k` covers the points from one past the
/// previous end index (0 for the first) through its own end index.
pub fn reconstruct_outline(g: &Glyph) -> (r: Option<Vec<Vec<Point>>>)
    ensures
        match r {
            None => !glyph_wf(*g),
            Some(cs) => {
                &&& glyph_wf(*g)
                &&& cs@.len() == g.contour_end_pts@.len()
                &&& forall|k: int|
                    0 <= k < cs@.len() ==> (#[trigger] cs@[k])@.map_values(
                        |p: Point| (p.x as int, p.y as int),
                    ) == with_implied(contour_seq(*g, k))
                &&& forall|k: int| 0 <= k < cs@.len() ==> 1 <= (#[trigger] cs@[k])@.len() <= 0x20000
                &&& forall|k: int, j: int|
                    0 <= k < cs@.len() && 0 <= j < cs@[k]@.len() ==> -0x1_0000_0000 <= (
                    #[trigger] cs@[k]@[j]).x <= 0x1_0000_0000 && -0x1_0000_0000 <= cs@[k]@[j].y
                        <= 0x1_0000_0000
            },
        },
{
    if !check_well_formed(g) {
        return None;
    }
    let n_contours = g.contour_end_pts.len();
    let mut result: Vec<Vec<Point>> = Vec::new();
    let mut start: usize = 0;
    let mut k: usize = 0;
    while k < n_contours
        invariant
            k <= n_contours,
            n_contours == g.contour_end_pts@.len(),
            glyph_wf(*g),
            start == contour_start(g.contour_end_pts@, k as int),
            k < n_contours ==> start <= g.contour_end_pts@[k as int],
            result@.len() == k,
            forall|q: int|
                0 <= q < k ==> (#[trigger] result@[q])@.map_values(
                    |p: Point| (p.x as int, p.y as int),
                ) == with_implied(contour_seq(*g, q)),
            forall|q: int| 0 <= q < k ==> 1 <= (#[trigger] result@[q])@.len() <= 0x20000,
            forall|q: int, j: int|
                0 <= q < k && 0 <= j < result@[q]@.len() ==> -0x1_0000_0000 <= (
                #[trigger] result@[q]@[j]).x <= 0x1_0000_0000 && -0x1_0000_0000
                    <= result@[q]@[j].y <= 0x1_0000_0000,
        decreases n_contours - k,
    {
        proof {
            lemma_ends_increasing(g.contour_end_pts@, k as int, g.contour_end_pts@.len() - 1);
        }
        let end = g.contour_end_pts[k] as usize;
        let mut contour: Vec<(Point, bool)> = Vec::new();
        let mut q: usize = start;
        while q <= end
            invariant
                start <= q <= end + 1,
                end < g.coordinates@.len(),
                contour@ =~= g.coordinates@.subrange(start as int, q as int),
            decreases end + 1 - q,
        {
            contour.push(g.coordinates[q]);
            q = q + 1;
        }
        assert(contour@ == contour_seq(*g, k as int));
        let rebuilt = reconstruct_contour(&contour);
        result.push(rebuilt);
        start = end + 1;
        k = k + 1;
    }
    Some(result)
}

/// Reconstructs and flattens every contour of a glyph at resolution
/// `res`, or `None` when the glyph is not well formed.  Output
/// coordinates are scaled by `2 * res * res` relative to the glyph's.
pub fn flatten_outline(g: &Glyph, res: usize) -> (r: Option<Vec<Vec<Point>>>)
    requires
        1 <= res <= 16384,
    ensures
        match r {
            None => !glyph_wf(*g),
            Some(cs) => {
                &&& glyph_wf(*g)
                &&& cs@.len() == g.contour_end_pts@.len()
                &&& forall|k: int|
                    0 <= k < cs@.len() ==> (#[trigger] cs@[k])@.map_values(
                        |p: Point| (p.x as int, p.y as int),
                    ) == flatten_spec(with_implied(contour_seq(*g, k)), res as int)
            },
        },
{
    let rebuilt = match reconstruct_outline(g) {
        Some(v) => v,
        None => {
            return None;
        },
    };
    let mut result: Vec<Vec<Point>> = Vec::new();
    let mut k: usize = 0;
    while k < rebuilt.len()
        invariant
            k <= rebuilt@.len(),
            result@.len() == k,
            forall|q: int|
                0 <= q < k ==> (#[trigger] result@[q])@.map_values(
                    |p: Point| (p.x as int, p.y as int),
                ) == flatten_spec(with_implied(contour_seq(*g, q)), res as int),
        decreases rebuilt@.len() - k,
    {
        let flat = flatten_contour(&rebuilt[k], res);
        result.push(flat);
        k = k + 1;
    }
    Some(result)
}

} // verus!
