use vstd::prelude::*;
use crate::fixed::{floor_div, lemma_mul_within, lemma_ratio_scale, ratio, within, LIMIT, SUBPIXEL};

verus! {

/// Largest magnitude of a sample point's coordinate, in sub-pixel units.
pub const SAMPLE_LIMIT: i64 = 0x40_0000_0000;

/// Largest magnitude of a barycentric weight that `barycentric` hands out.
pub const WEIGHT_LIMIT: i128 = 0x40_0000_0000_0000_0000;

/// A vertex after projection: `x` and `y` in sub-pixel screen units (y up),
/// `z` the normalized depth (`ONE` is 1.0) and `w` the perspective reciprocal
/// `1 / w_clip` at any fixed scale shared by the triangle's vertices.
#[derive(Clone, Copy, Debug, PartialEq, Eq)]
pub struct ScreenVertex {
    pub x: i64,
    pub y: i64,
    pub z: i64,
    pub w: i64,
}

impl ScreenVertex {
    /// Every component lies in `[-LIMIT, LIMIT]`.
    pub open spec fn wf(&self) -> bool {
        within(self.x as int, LIMIT as int) && within(self.y as int, LIMIT as int) && within(
            self.z as int,
            LIMIT as int,
        ) && within(self.w as int, LIMIT as int)
    }
}

/// Twice the signed area of the triangle `v0 v1 v2`.
pub open spec fn area2(v0: ScreenVertex, v1: ScreenVertex, v2: ScreenVertex) -> int {
    (v1.y - v2.y) * (v0.x - v2.x) + (v2.x - v1.x) * (v0.y - v2.y)
}

/// The unnormalized weight of `v0` at the point `(sx, sy)`.
pub open spec fn weight0(v1: ScreenVertex, v2: ScreenVertex, sx: int, sy: int) -> int {
    (v1.y - v2.y) * (sx - v2.x) + (v2.x - v1.x) * (sy - v2.y)
}

/// The unnormalized weight of `v1` at the point `(sx, sy)`.
pub open spec fn weight1(v0: ScreenVertex, v2: ScreenVertex, sx: int, sy: int) -> int {
    (v2.y - v0.y) * (sx - v2.x) + (v0.x - v2.x) * (sy - v2.y)
}

/// Barycentric weights of the point `(sx, sy)` in the triangle `v0 v1 v2`,
/// scaled by the triangle's absolute doubled area so that they are integers:
/// the true weights are `b.0 / s`, `b.1 / s`, `b.2 / s` with
/// `s = b.0 + b.1 + b.2 = |area2|`. The third weight is derived from the other
/// two. A triangle of zero area has none.
pub open spec fn barycentric_spec(
    v0: ScreenVertex,
    v1: ScreenVertex,
    v2: ScreenVertex,
    sx: int,
    sy: int,
) -> Option<(int, int, int)> {
    let d = area2(v0, v1, v2);
    let c0 = weight0(v1, v2, sx, sy);
    let c1 = weight1(v0, v2, sx, sy);
    if d == 0 {
        None
    } else if d > 0 {
        Some((c0, c1, d - c0 - c1))
    } else {
        Some((-c0, -c1, -(d - c0 - c1)))
    }
}

/// The point lies inside the triangle or on its boundary.
pub open spec fn covers(b: (int, int, int)) -> bool {
    b.0 >= 0 && b.1 >= 0 && b.2 >= 0
}

pub open spec fn widen(b: (i128, i128, i128)) -> (int, int, int) {
    (b.0 as int, b.1 as int, b.2 as int)
}

pub open spec fn widen64(b: (i64, i64, i64)) -> (int, int, int) {
    (b.0 as int, b.1 as int, b.2 as int)
}

/// Weights small enough for `perspective_interpolate`.
pub open spec fn weights_bounded(b: (i128, i128, i128)) -> bool {
    within(b.0 as int, WEIGHT_LIMIT as int) && within(b.1 as int, WEIGHT_LIMIT as int) && within(
        b.2 as int,
        WEIGHT_LIMIT as int,
    )
}

/// Three values in `[-LIMIT, LIMIT]`.
pub open spec fn triple_bounded(t: (i64, i64, i64)) -> bool {
    within(t.0 as int, LIMIT as int) && within(t.1 as int, LIMIT as int) && within(
        t.2 as int,
        LIMIT as int,
    )
}

/// Perspective-correct interpolation of the per-vertex values `a` with
/// barycentric weights `b` and perspective reciprocals `ws`:
/// `(b0 a0 w0 + b1 a1 w1 + b2 a2 w2) / (b0 w0 + b1 w1 + b2 w2)`, rounded down.
/// Undefined where the denominator is zero.
pub open spec fn interpolate_spec(b: (int, int, int), ws: (int, int, int), a: (int, int, int)) -> Option<
    int,
> {
    let den = b.0 * ws.0 + b.1 * ws.1 + b.2 * ws.2;
    let num = b.0 * a.0 * ws.0 + b.1 * a.1 * ws.1 + b.2 * a.2 * ws.2;
    if den == 0 {
        None
    } else if den > 0 {
        Some(num / den)
    } else {
        Some((-num) / (-den))
    }
}

/// Barycentric weights of the sample point `(sx, sy)` (sub-pixel units) in
/// the triangle `v0 v1 v2`, or `None` for a triangle of zero area.
pub fn barycentric(v0: ScreenVertex, v1: ScreenVertex, v2: ScreenVertex, sx: i64, sy: i64) -> (r:
    Option<(i128, i128, i128)>)
    requires
        v0.wf(),
        v1.wf(),
        v2.wf(),
        within(sx as int, SAMPLE_LIMIT as int),
        within(sy as int, SAMPLE_LIMIT as int),
    ensures
        r is None <==> barycentric_spec(v0, v1, v2, sx as int, sy as int) is None,
        r matches Some(b) ==> barycentric_spec(v0, v1, v2, sx as int, sy as int) == Some(widen(b))
            && weights_bounded(b),
{
    let l2: i128 = 2 * LIMIT as i128;
    let dx: i128 = SAMPLE_LIMIT as i128 + LIMIT as i128;
    proof {
        lemma_mul_within(v1.y - v2.y, v0.x - v2.x, l2 as int, l2 as int);
        lemma_mul_within(v2.x - v1.x, v0.y - v2.y, l2 as int, l2 as int);
        lemma_mul_within(v1.y - v2.y, sx - v2.x, l2 as int, dx as int);
        lemma_mul_within(v2.x - v1.x, sy - v2.y, l2 as int, dx as int);
        lemma_mul_within(v2.y - v0.y, sx - v2.x, l2 as int, dx as int);
        lemma_mul_within(v0.x - v2.x, sy - v2.y, l2 as int, dx as int);
    }
    let d: i128 = (v1.y as i128 - v2.y as i128) * (v0.x as i128 - v2.x as i128) + (v2.x as i128
        - v1.x as i128) * (v0.y as i128 - v2.y as i128);
    let c0: i128 = (v1.y as i128 - v2.y as i128) * (sx as i128 - v2.x as i128) + (v2.x as i128
        - v1.x as i128) * (sy as i128 - v2.y as i128);
    let c1: i128 = (v2.y as i128 - v0.y as i128) * (sx as i128 - v2.x as i128) + (v0.x as i128
        - v2.x as i128) * (sy as i128 - v2.y as i128);
    let c2: i128 = d - c0 - c1;
    if d == 0 {
        None
    } else if d > 0 {
        Some((c0, c1, c2))
    } else {
        Some((-c0, -c1, -c2))
    }
}

/// Perspective-correct interpolation of `a` (see `interpolate_spec`).
pub fn perspective_interpolate(b: (i128, i128, i128), ws: (i64, i64, i64), a: (i64, i64, i64)) -> (r:
    Option<i128>)
    requires
        weights_bounded(b),
        triple_bounded(ws),
        triple_bounded(a),
    ensures
        r is None <==> interpolate_spec(widen(b), widen64(ws), widen64(a)) is None,
        r matches Some(v) ==> interpolate_spec(widen(b), widen64(ws), widen64(a)) == Some(
            v as int,
        ),
{
    proof {
        let wl = WEIGHT_LIMIT as int;
        let l = LIMIT as int;
        lemma_mul_within(b.0 as int, ws.0 as int, wl, l);
        lemma_mul_within(b.1 as int, ws.1 as int, wl, l);
        lemma_mul_within(b.2 as int, ws.2 as int, wl, l);
        lemma_mul_within(b.0 as int, a.0 as int, wl, l);
        lemma_mul_within(b.1 as int, a.1 as int, wl, l);
        lemma_mul_within(b.2 as int, a.2 as int, wl, l);
        lemma_mul_within(b.0 * a.0, ws.0 as int, wl * l, l);
        lemma_mul_within(b.1 * a.1, ws.1 as int, wl * l, l);
        lemma_mul_within(b.2 * a.2, ws.2 as int, wl * l, l);
    }
    let den: i128 = b.0 * ws.0 as i128 + b.1 * ws.1 as i128 + b.2 * ws.2 as i128;
    let num: i128 = b.0 * a.0 as i128 * ws.0 as i128 + b.1 * a.1 as i128 * ws.1 as i128 + b.2
        * a.2 as i128 * ws.2 as i128;
    if den == 0 {
        None
    } else if den > 0 {
        Some(floor_div(num, den))
    } else {
        Some(floor_div(-num, -den))
    }
}

/// `interpolate_spec` is the rounded-down ratio of its numerator and
/// denominator.
proof fn lemma_interpolate_ratio(b: (int, int, int), ws: (int, int, int), a: (int, int, int))
    ensures
        ({
            let den = b.0 * ws.0 + b.1 * ws.1 + b.2 * ws.2;
            let num = b.0 * a.0 * ws.0 + b.1 * a.1 * ws.1 + b.2 * a.2 * ws.2;
            interpolate_spec(b, ws, a) == if den == 0 {
                None
            } else {
                Some(ratio(num, den))
            }
        }),
{
}

/// Interpolating a value that every vertex shares gives that value exactly,
/// wherever the interpolation is defined.
pub proof fn lemma_interpolate_constant(b: (int, int, int), ws: (int, int, int), c: int)
    requires
        b.0 * ws.0 + b.1 * ws.1 + b.2 * ws.2 != 0,
    ensures
        interpolate_spec(b, ws, (c, c, c)) == Some(c),
{
    let den = b.0 * ws.0 + b.1 * ws.1 + b.2 * ws.2;
    let num = b.0 * c * ws.0 + b.1 * c * ws.1 + b.2 * c * ws.2;
    assert(b.0 * c * ws.0 == c * (b.0 * ws.0)) by (nonlinear_arith);
    assert(b.1 * c * ws.1 == c * (b.1 * ws.1)) by (nonlinear_arith);
    assert(b.2 * c * ws.2 == c * (b.2 * ws.2)) by (nonlinear_arith);
    assert(c * (b.0 * ws.0) + c * (b.1 * ws.1) + c * (b.2 * ws.2) == c * den) by (nonlinear_arith)
        requires
            den == b.0 * ws.0 + b.1 * ws.1 + b.2 * ws.2,
    ;
    lemma_ratio_scale(1, 1, den);
    lemma_ratio_scale(c, 1, den);
    assert(den * c == num && den * 1 == den) by (nonlinear_arith)
        requires
            num == c * den,
    ;
    assert(ratio(c, 1) == c);
    lemma_interpolate_ratio(b, ws, (c, c, c));
}

/// Scaling every perspective reciprocal by one nonzero factor leaves the
/// interpolation unchanged: only their ratios matter.
pub proof fn lemma_interpolate_scale(b: (int, int, int), ws: (int, int, int), a: (int, int, int), k: int)
    requires
        k != 0,
    ensures
        interpolate_spec(b, (k * ws.0, k * ws.1, k * ws.2), a) == interpolate_spec(b, ws, a),
{
    let den = b.0 * ws.0 + b.1 * ws.1 + b.2 * ws.2;
    let num = b.0 * a.0 * ws.0 + b.1 * a.1 * ws.1 + b.2 * a.2 * ws.2;
    let kw = (k * ws.0, k * ws.1, k * ws.2);
    let den2 = b.0 * kw.0 + b.1 * kw.1 + b.2 * kw.2;
    let num2 = b.0 * a.0 * kw.0 + b.1 * a.1 * kw.1 + b.2 * a.2 * kw.2;
    assert(b.0 * (k * ws.0) == k * (b.0 * ws.0)) by (nonlinear_arith);
    assert(b.1 * (k * ws.1) == k * (b.1 * ws.1)) by (nonlinear_arith);
    assert(b.2 * (k * ws.2) == k * (b.2 * ws.2)) by (nonlinear_arith);
    assert(b.0 * a.0 * (k * ws.0) == k * (b.0 * a.0 * ws.0)) by (nonlinear_arith);
    assert(b.1 * a.1 * (k * ws.1) == k * (b.1 * a.1 * ws.1)) by (nonlinear_arith);
    assert(b.2 * a.2 * (k * ws.2) == k * (b.2 * a.2 * ws.2)) by (nonlinear_arith);
    assert(k * (b.0 * ws.0) + k * (b.1 * ws.1) + k * (b.2 * ws.2) == k * den) by (nonlinear_arith)
        requires
            den == b.0 * ws.0 + b.1 * ws.1 + b.2 * ws.2,
    ;
    assert(k * (b.0 * a.0 * ws.0) + k * (b.1 * a.1 * ws.1) + k * (b.2 * a.2 * ws.2) == k * num)
        by (nonlinear_arith)
        requires
            num == b.0 * a.0 * ws.0 + b.1 * a.1 * ws.1 + b.2 * a.2 * ws.2,
    ;
    assert(den2 == k * den && num2 == k * num);
    lemma_interpolate_ratio(b, ws, a);
    lemma_interpolate_ratio(b, kw, a);
    if den != 0 {
        lemma_ratio_scale(num, den, k);
    } else {
        assert(k * den == 0) by (nonlinear_arith)
            requires
                den == 0,
        ;
    }
}

/// Where the three perspective reciprocals are equal, perspective-correct
/// interpolation is the plain barycentric average
/// `(b0 a0 + b1 a1 + b2 a2) / (b0 + b1 + b2)`, rounded down.
pub proof fn lemma_interpolate_equal_w(b: (int, int, int), w: int, a: (int, int, int))
    requires
        w != 0,
        b.0 + b.1 + b.2 != 0,
    ensures
        interpolate_spec(b, (w, w, w), a) == Some(
            ratio(b.0 * a.0 + b.1 * a.1 + b.2 * a.2, b.0 + b.1 + b.2),
        ),
{
    lemma_interpolate_scale(b, (1, 1, 1), a, w);
    assert(w * 1 == w);
    lemma_interpolate_ratio(b, (1, 1, 1), a);
}

} // verus!
