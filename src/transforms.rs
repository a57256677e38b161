use vstd::prelude::*;
use crate::fixed::{floor_div, lemma_mul_within, ratio, within, LIMIT, ONE, SUBPIXEL};
use crate::geometry::ScreenVertex;

verus! {

/// The map from normalized device coordinates to screen coordinates of a
/// `width` by `height` image: `x_ndc * width / 2 + (width - 1) / 2`
/// pixels, and the same in y.
#[derive(Clone, Copy, Debug, PartialEq, Eq)]
pub struct Viewport {
    pub width: u32,
    pub height: u32,
}

/// The sub-pixel screen coordinate of the normalized device coordinate
/// `ndc` (`ONE` is 1.0) along an axis of `size` pixels:
/// `SUBPIXEL * (ndc * size / 2 + (size - 1) / 2)`, rounded down.
pub open spec fn to_screen_spec(ndc: int, size: int) -> int {
    SUBPIXEL * (ndc * size + (size - 1) * ONE) / (2 * ONE as int)
}

/// The viewport of a `x` by `y` image.
pub fn viewport(x: u32, y: u32) -> (r: Viewport)
    ensures
        r.width == x && r.height == y,
{
    Viewport { width: x, height: y }
}

/// Maps one coordinate (see `to_screen_spec`).
fn axis_to_screen(ndc: i64, size: u32) -> (r: i128)
    ensures
        r == to_screen_spec(ndc as int, size as int),
{
    let s: i128 = size as i128;
    let one: i128 = ONE as i128;
    assert(-0x8000_0000_0000_0000_0000_0000 <= ndc * s <= 0x8000_0000_0000_0000_0000_0000)
        by (nonlinear_arith)
        requires
            0 <= s <= 0xffff_ffff,
            -0x8000_0000_0000_0000 <= ndc <= 0x8000_0000_0000_0000,
    ;
    floor_div(SUBPIXEL as i128 * (ndc as i128 * s + (s - 1) * one), 2 * one)
}

impl Viewport {
    /// The screen vertex of a point with normalized device coordinates
    /// `(x, y, z)` and perspective reciprocal `w`, or `None` where a
    /// component falls outside `[-LIMIT, LIMIT]`.
    pub fn to_screen(&self, x: i64, y: i64, z: i64, w: i64) -> (r: Option<ScreenVertex>)
        ensures
            ({
                let sx = to_screen_spec(x as int, self.width as int);
                let sy = to_screen_spec(y as int, self.height as int);
                &&& r is Some <==> (within(sx, LIMIT as int) && within(sy, LIMIT as int) && within(
                    z as int,
                    LIMIT as int,
                ) && within(w as int, LIMIT as int))
                &&& r matches Some(v) ==> v.x == sx && v.y == sy && v.z == z && v.w == w
            }),
    {
        let sx = axis_to_screen(x, self.width);
        let sy = axis_to_screen(y, self.height);
        let l: i128 = LIMIT as i128;
        if -l <= sx && sx <= l && -l <= sy && sy <= l && -LIMIT <= z && z <= LIMIT && -LIMIT <= w
            && w <= LIMIT {
            Some(ScreenVertex { x: sx as i64, y: sy as i64, z, w })
        } else {
            None
        }
    }
}

/// The viewport maps the corner `(-1, -1)` of normalized device space to
/// half a pixel before pixel `(0, 0)`, and the corner `(1, 1)` to half a
/// pixel past pixel `(width - 1, height - 1)`: the sub-pixel coordinates
/// `-SUBPIXEL / 2` and `SUBPIXEL * (size - 1) + SUBPIXEL / 2` on each axis.
pub proof fn lemma_viewport_corners(size: int)
    requires
        size >= 1,
    ensures
        to_screen_spec(-ONE as int, size) == -(SUBPIXEL / 2),
        to_screen_spec(ONE as int, size) == SUBPIXEL * (size - 1) + SUBPIXEL / 2,
{
    let o = ONE as int;
    assert(SUBPIXEL * (-o * size + (size - 1) * o) == -8 * (2 * o)) by (nonlinear_arith);
    assert(SUBPIXEL * (o * size + (size - 1) * o) == (16 * (size - 1) + 8) * (2 * o))
        by (nonlinear_arith);
    vstd::arithmetic::div_mod::lemma_div_multiples_vanish(-8, 2 * o);
    vstd::arithmetic::div_mod::lemma_div_multiples_vanish(16 * (size - 1) + 8, 2 * o);
}

/// A row of a fixed-point 4 by 4 matrix.
pub type Row4 = (i64, i64, i64, i64);

/// A 4 by 4 homogeneous transform in fixed point (`ONE` is 1.0), by rows.
#[derive(Clone, Copy, Debug, PartialEq, Eq)]
pub struct Mat4 {
    pub r0: Row4,
    pub r1: Row4,
    pub r2: Row4,
    pub r3: Row4,
}

/// Largest magnitude of a matrix entry (256.0).
pub const MAT_LIMIT: i64 = 0x100_0000;

pub open spec fn row_wf(r: Row4) -> bool {
    within(r.0 as int, MAT_LIMIT as int) && within(r.1 as int, MAT_LIMIT as int) && within(
        r.2 as int,
        MAT_LIMIT as int,
    ) && within(r.3 as int, MAT_LIMIT as int)
}

/// Every entry lies in `[-MAT_LIMIT, MAT_LIMIT]`.
pub open spec fn mat_wf(m: Mat4) -> bool {
    row_wf(m.r0) && row_wf(m.r1) && row_wf(m.r2) && row_wf(m.r3)
}

/// One coordinate of the image of the point `(x, y, z, 1)`, rounded down.
pub open spec fn row_apply(r: Row4, x: int, y: int, z: int) -> int {
    (r.0 * x + r.1 * y + r.2 * z + r.3 * ONE) / (ONE as int)
}

/// The screen vertex of the point `(x, y, z)` (fixed point): its clip
/// coordinates under `m`, divided by the clip `w` into normalized device
/// coordinates, the reciprocal `1 / w` kept, and x and y mapped through the
/// viewport. `None` where a coordinate of the point lies outside
/// `[-LIMIT, LIMIT]`, the clip `w` is zero, or a component of the result
/// falls outside `[-LIMIT, LIMIT]`.
pub open spec fn project_spec(m: Mat4, vp: Viewport, x: int, y: int, z: int) -> Option<ScreenVertex> {
    if !(within(x, LIMIT as int) && within(y, LIMIT as int) && within(z, LIMIT as int)) {
        None
    } else {
        let cx = row_apply(m.r0, x, y, z);
        let cy = row_apply(m.r1, x, y, z);
        let cz = row_apply(m.r2, x, y, z);
        let cw = row_apply(m.r3, x, y, z);
        if cw == 0 {
            None
        } else {
            let sx = to_screen_spec(ratio(cx * ONE, cw), vp.width as int);
            let sy = to_screen_spec(ratio(cy * ONE, cw), vp.height as int);
            let sz = ratio(cz * ONE, cw);
            let sw = ratio(ONE * ONE, cw);
            if within(sx, LIMIT as int) && within(sy, LIMIT as int) && within(sz, LIMIT as int)
                && within(sw, LIMIT as int) {
                Some(ScreenVertex { x: sx as i64, y: sy as i64, z: sz as i64, w: sw as i64 })
            } else {
                None
            }
        }
    }
}

/// Largest magnitude of a clip coordinate of a bounded point.
const CLIP_LIMIT: i128 = 0x20_0000_0000;

fn row_apply_exec(r: Row4, x: i64, y: i64, z: i64) -> (c: i128)
    requires
        row_wf(r),
        within(x as int, LIMIT as int),
        within(y as int, LIMIT as int),
        within(z as int, LIMIT as int),
    ensures
        c == row_apply(r, x as int, y as int, z as int),
        within(c as int, CLIP_LIMIT as int),
{
    proof {
        let (ml, l) = (MAT_LIMIT as int, LIMIT as int);
        lemma_mul_within(r.0 as int, x as int, ml, l);
        lemma_mul_within(r.1 as int, y as int, ml, l);
        lemma_mul_within(r.2 as int, z as int, ml, l);
        lemma_mul_within(r.3 as int, ONE as int, ml, l);
    }
    let s: i128 = r.0 as i128 * x as i128 + r.1 as i128 * y as i128 + r.2 as i128 * z as i128
        + r.3 as i128 * ONE as i128;
    let c = floor_div(s, ONE as i128);
    proof {
        assert(within(c as int, CLIP_LIMIT as int)) by (nonlinear_arith)
            requires
                c as int == s as int / (ONE as int),
                within(s as int, 4 * MAT_LIMIT * LIMIT),
                ONE == 65536,
                MAT_LIMIT == 0x100_0000,
                LIMIT == 0x800_0000,
                CLIP_LIMIT == 0x20_0000_0000,
        ;
    }
    c
}

fn ratio_exec(n: i128, d: i128) -> (r: i128)
    requires
        d != 0,
        within(d as int, CLIP_LIMIT as int),
        within(n as int, 0x1_0000_0000_0000_0000_0000),
    ensures
        r == ratio(n as int, d as int),
{
    if d > 0 {
        floor_div(n, d)
    } else {
        floor_div(-n, -d)
    }
}

/// A ratio of a bounded numerator lies within the numerator's bound.
proof fn lemma_ratio_within(n: int, d: int, b: int)
    requires
        d != 0,
        within(n, b),
        b >= 0,
    ensures
        within(ratio(n, d), b),
{
    if d > 0 {
        assert(within(n / d, b)) by (nonlinear_arith)
            requires
                d > 0,
                within(n, b),
                b >= 0,
        ;
    } else {
        assert(within((-n) / (-d), b)) by (nonlinear_arith)
            requires
                -d > 0,
                within(n, b),
                b >= 0,
        ;
    }
}

impl Viewport {
    /// The screen vertex of the point `(x, y, z)` under `m` (see
    /// `project_spec`).
    pub fn project(&self, m: &Mat4, x: i64, y: i64, z: i64) -> (r: Option<ScreenVertex>)
        requires
            mat_wf(*m),
        ensures
            r == project_spec(*m, *self, x as int, y as int, z as int),
    {
        if x < -LIMIT || x > LIMIT || y < -LIMIT || y > LIMIT || z < -LIMIT || z > LIMIT {
            return None;
        }
        let cx = row_apply_exec(m.r0, x, y, z);
        let cy = row_apply_exec(m.r1, x, y, z);
        let cz = row_apply_exec(m.r2, x, y, z);
        let cw = row_apply_exec(m.r3, x, y, z);
        if cw == 0 {
            return None;
        }
        let one: i128 = ONE as i128;
        let nx = ratio_exec(cx * one, cw);
        let ny = ratio_exec(cy * one, cw);
        let nz = ratio_exec(cz * one, cw);
        let nw = ratio_exec(one * one, cw);
        proof {
            let b = CLIP_LIMIT * ONE;
            lemma_ratio_within(cx * ONE, cw as int, b);
            lemma_ratio_within(cy * ONE, cw as int, b);
        }
        let sx = axis_to_screen(nx as i64, self.width);
        let sy = axis_to_screen(ny as i64, self.height);
        let l: i128 = LIMIT as i128;
        if -l <= sx && sx <= l && -l <= sy && sy <= l && -l <= nz && nz <= l && -l <= nw && nw
            <= l {
            Some(ScreenVertex { x: sx as i64, y: sy as i64, z: nz as i64, w: nw as i64 })
        } else {
            None
        }
    }
}

/// Checks `mat_wf`.
pub fn mat_valid(m: &Mat4) -> (r: bool)
    ensures
        r == mat_wf(*m),
{
    row_valid(m.r0) && row_valid(m.r1) && row_valid(m.r2) && row_valid(m.r3)
}

fn row_valid(r: Row4) -> (b: bool)
    ensures
        b == row_wf(r),
{
    let l = MAT_LIMIT;
    -l <= r.0 && r.0 <= l && -l <= r.1 && r.1 <= l && -l <= r.2 && r.2 <= l && -l <= r.3 && r.3
        <= l
}

/// The projection of vertex `k` of a flat position list (three
/// coordinates per vertex).
pub open spec fn project_at(m: Mat4, vp: Viewport, positions: Seq<i64>, k: int) -> Option<
    ScreenVertex,
> {
    project_spec(
        m,
        vp,
        positions[3 * k] as int,
        positions[3 * k + 1] as int,
        positions[3 * k + 2] as int,
    )
}

/// Projects every vertex of a flat position list (three fixed-point
/// coordinates per vertex) with the combined transform `m` and the
/// viewport `vp`; `None` where the matrix has an entry out of range, the
/// list's length is not a multiple of three, or a vertex does not project.
pub fn project_vertices(m: &Mat4, vp: &Viewport, positions: &Vec<i64>) -> (r: Option<
    Vec<ScreenVertex>,
>)
    ensures
        r is Some <==> (mat_wf(*m) && positions@.len() % 3 == 0 && forall|k: int|
            0 <= k < positions@.len() / 3 ==> #[trigger] project_at(*m, *vp, positions@, k) is Some),
        r matches Some(v) ==> v@.len() == positions@.len() / 3 && forall|k: int|
            0 <= k < v@.len() ==> project_at(*m, *vp, positions@, k) == Some(#[trigger] v@[k]),
{
    if !mat_valid(m) || positions.len() % 3 != 0 {
        return None;
    }
    let len = positions.len();
    let n = len / 3;
    let mut out: Vec<ScreenVertex> = Vec::new();
    let mut k: usize = 0;
    while k < n
        invariant
            k <= n,
            n == positions@.len() / 3,
            len == positions@.len(),
            positions@.len() % 3 == 0,
            mat_wf(*m),
            out@.len() == k,
            forall|j: int| 0 <= j < k ==> project_at(*m, *vp, positions@, j) == Some(#[trigger] out@[j]),
        decreases n - k,
    {
        proof {
            assert(3 * k + 2 < positions@.len()) by (nonlinear_arith)
                requires
                    k < n,
                    n == positions@.len() / 3,
                    positions@.len() % 3 == 0,
            ;
        }
        match vp.project(m, positions[3 * k], positions[3 * k + 1], positions[3 * k + 2]) {
            Some(v) => {
                out.push(v);
            },
            None => {
                proof {
                    assert(!(project_at(*m, *vp, positions@, k as int) is Some));
                }
                return None;
            },
        }
        k += 1;
    }
    proof {
        assert forall|j: int| 0 <= j < positions@.len() / 3 implies #[trigger] project_at(
            *m,
            *vp,
            positions@,
            j,
        ) is Some by {
            assert(project_at(*m, *vp, positions@, j) == Some(out@[j]));
        }
    }
    Some(out)
}

/// Entry `(i, j)` of a product: the dot product of row `i` of `a` with
/// column `j` of `b`, rounded down to fixed point.
pub open spec fn product_entry(a: (Row4, Row4, Row4, Row4), b: Mat4, i: int, j: int) -> int {
    let r = if i == 0 {
        a.0
    } else if i == 1 {
        a.1
    } else if i == 2 {
        a.2
    } else {
        a.3
    };
    let c = |k: Row4| if j == 0 {
        k.0
    } else if j == 1 {
        k.1
    } else if j == 2 {
        k.2
    } else {
        k.3
    };
    (r.0 * c(b.r0) + r.1 * c(b.r1) + r.2 * c(b.r2) + r.3 * c(b.r3)) / (ONE as int)
}

/// The entry in row `i`, column `j`.
pub open spec fn entry(m: Mat4, i: int, j: int) -> int {
    let r = if i == 0 {
        m.r0
    } else if i == 1 {
        m.r1
    } else if i == 2 {
        m.r2
    } else {
        m.r3
    };
    if j == 0 {
        r.0 as int
    } else if j == 1 {
        r.1 as int
    } else if j == 2 {
        r.2 as int
    } else {
        r.3 as int
    }
}

fn dot_row_col(r: Row4, c0: i64, c1: i64, c2: i64, c3: i64) -> (v: i64)
    requires
        row_wf(r),
        row_wf((c0, c1, c2, c3)),
    ensures
        v == (r.0 * c0 + r.1 * c1 + r.2 * c2 + r.3 * c3) / (ONE as int),
{
    proof {
        let ml = MAT_LIMIT as int;
        lemma_mul_within(r.0 as int, c0 as int, ml, ml);
        lemma_mul_within(r.1 as int, c1 as int, ml, ml);
        lemma_mul_within(r.2 as int, c2 as int, ml, ml);
        lemma_mul_within(r.3 as int, c3 as int, ml, ml);
    }
    let s: i128 = r.0 as i128 * c0 as i128 + r.1 as i128 * c1 as i128 + r.2 as i128 * c2 as i128
        + r.3 as i128 * c3 as i128;
    let v = floor_div(s, ONE as i128);
    proof {
        assert(within(v as int, 0x4_0000_0000)) by (nonlinear_arith)
            requires
                v as int == s as int / (ONE as int),
                within(s as int, 4 * MAT_LIMIT * MAT_LIMIT),
                ONE == 65536,
                MAT_LIMIT == 0x100_0000,
        ;
    }
    v as i64
}

fn row_times(r: Row4, b: &Mat4) -> (out: Row4)
    requires
        row_wf(r),
        mat_wf(*b),
    ensures
        out.0 == (r.0 * b.r0.0 + r.1 * b.r1.0 + r.2 * b.r2.0 + r.3 * b.r3.0) / (ONE as int),
        out.1 == (r.0 * b.r0.1 + r.1 * b.r1.1 + r.2 * b.r2.1 + r.3 * b.r3.1) / (ONE as int),
        out.2 == (r.0 * b.r0.2 + r.1 * b.r1.2 + r.2 * b.r2.2 + r.3 * b.r3.2) / (ONE as int),
        out.3 == (r.0 * b.r0.3 + r.1 * b.r1.3 + r.2 * b.r2.3 + r.3 * b.r3.3) / (ONE as int),
{
    (
        dot_row_col(r, b.r0.0, b.r1.0, b.r2.0, b.r3.0),
        dot_row_col(r, b.r0.1, b.r1.1, b.r2.1, b.r3.1),
        dot_row_col(r, b.r0.2, b.r1.2, b.r2.2, b.r3.2),
        dot_row_col(r, b.r0.3, b.r1.3, b.r2.3, b.r3.3),
    )
}

impl Mat4 {
    /// The product `self * o` in fixed point (applying `o` first), or
    /// `None` where an entry of either factor is out of range.
    pub fn mul(&self, o: &Mat4) -> (r: Option<Mat4>)
        ensures
            r is Some <==> (mat_wf(*self) && mat_wf(*o)),
            r matches Some(p) ==> forall|i: int, j: int|
                0 <= i < 4 && 0 <= j < 4 ==> #[trigger] entry(p, i, j) == product_entry(
                    (self.r0, self.r1, self.r2, self.r3),
                    *o,
                    i,
                    j,
                ),
    {
        if !mat_valid(self) || !mat_valid(o) {
            return None;
        }
        let p = Mat4 {
            r0: row_times(self.r0, o),
            r1: row_times(self.r1, o),
            r2: row_times(self.r2, o),
            r3: row_times(self.r3, o),
        };
        Some(p)
    }
}

/// The off-axis frustum matrix from view space to clip space, in fixed
/// point: after the divide by `w`, x and y run over `[-1, 1]` between the
/// frustum's edges and z over `[-1, 1]` between `n` and `f`, signed
/// view-space depths. Each entry is rounded down.
pub open spec fn perspective_spec(l: int, r: int, b: int, t: int, n: int, f: int) -> Mat4 {
    let o = ONE as int;
    Mat4 {
        r0: (ratio(2 * n * o, r - l) as i64, 0, ratio((l + r) * o, l - r) as i64, 0),
        r1: (0, ratio(2 * n * o, t - b) as i64, ratio((b + t) * o, b - t) as i64, 0),
        r2: (0, 0, ratio((f + n) * o, n - f) as i64, ratio(2 * f * n, f - n) as i64),
        r3: (0, 0, ONE, 0),
    }
}

/// The frustum's parameters lie in `[-LIMIT, LIMIT]` and bound a frustum
/// of nonzero width, height and depth.
pub open spec fn frustum_wf(l: int, r: int, b: int, t: int, n: int, f: int) -> bool {
    &&& within(l, LIMIT as int) && within(r, LIMIT as int) && within(b, LIMIT as int)
    &&& within(t, LIMIT as int) && within(n, LIMIT as int) && within(f, LIMIT as int)
    &&& l != r && b != t && n != f
}

/// The perspective matrix of the frustum with edges `l`, `r`, `b`, `t` and
/// depths `n`, `f` (fixed point; see `perspective_spec`), or `None` where a
/// parameter is out of range or the frustum is flat.
pub fn perspective(l: i64, r: i64, b: i64, t: i64, n: i64, f: i64) -> (m: Option<Mat4>)
    ensures
        m is Some <==> frustum_wf(l as int, r as int, b as int, t as int, n as int, f as int),
        m matches Some(p) ==> p == perspective_spec(
            l as int,
            r as int,
            b as int,
            t as int,
            n as int,
            f as int,
        ),
{
    let lim = LIMIT;
    if l < -lim || l > lim || r < -lim || r > lim || b < -lim || b > lim || t < -lim || t > lim
        || n < -lim || n > lim || f < -lim || f > lim || l == r || b == t || n == f {
        return None;
    }
    let o: i128 = ONE as i128;
    let (l, r, b, t, n, f) = (l as i128, r as i128, b as i128, t as i128, n as i128, f as i128);
    proof {
        lemma_mul_within(2 * n, ONE as int, 2 * LIMIT, ONE as int);
        lemma_mul_within(l + r, ONE as int, 2 * LIMIT, ONE as int);
        lemma_mul_within(b + t, ONE as int, 2 * LIMIT, ONE as int);
        lemma_mul_within(f + n, ONE as int, 2 * LIMIT, ONE as int);
        lemma_mul_within(2 * f, n as int, 2 * LIMIT, LIMIT as int);
        let bound = 2 * LIMIT * ONE;
        lemma_ratio_within(2 * n * ONE, r - l, bound);
        lemma_ratio_within((l + r) * ONE, l - r, bound);
        lemma_ratio_within(2 * n * ONE, t - b, bound);
        lemma_ratio_within((b + t) * ONE, b - t, bound);
        lemma_ratio_within((f + n) * ONE, n - f, bound);
        lemma_ratio_within(2 * f * n, f - n, 2 * LIMIT * LIMIT);
    }
    let m00 = ratio_exec(2 * n * o, r - l);
    let m02 = ratio_exec((l + r) * o, l - r);
    let m11 = ratio_exec(2 * n * o, t - b);
    let m12 = ratio_exec((b + t) * o, b - t);
    let m22 = ratio_exec((f + n) * o, n - f);
    let m23 = ratio_exec(2 * f * n, f - n);
    Some(
        Mat4 {
            r0: (m00 as i64, 0, m02 as i64, 0),
            r1: (0, m11 as i64, m12 as i64, 0),
            r2: (0, 0, m22 as i64, m23 as i64),
            r3: (0, 0, ONE, 0),
        },
    )
}

/// For a frustum symmetric about its axis (`l = -r`, `b = -t`) the
/// perspective matrix has no off-axis terms: it scales x by `n / r` and y
/// by `n / t`, as the plain field-of-view perspective matrix does.
pub proof fn lemma_symmetric_perspective(r: int, t: int, n: int, f: int)
    requires
        frustum_wf(-r, r, -t, t, n, f),
    ensures
        perspective_spec(-r, r, -t, t, n, f).r0.2 == 0,
        perspective_spec(-r, r, -t, t, n, f).r1.2 == 0,
        perspective_spec(-r, r, -t, t, n, f).r0.0 == ratio(n * ONE, r),
        perspective_spec(-r, r, -t, t, n, f).r1.1 == ratio(n * ONE, t),
{
    let o = ONE as int;
    assert(2 * n * o == 2 * (n * o)) by (nonlinear_arith);
    lemma_ratio_halves(n * o, r);
    lemma_ratio_halves(n * o, t);
    lemma_mul_within(n, o, LIMIT as int, o);
    lemma_ratio_within(n * o, r, LIMIT * o);
    lemma_ratio_within(n * o, t, LIMIT * o);
    assert((-r + r) * o == 0) by (nonlinear_arith);
    assert((-t + t) * o == 0) by (nonlinear_arith);
}

/// `(2 a) / (2 d)` rounds down to the same value as `a / d`.
proof fn lemma_ratio_halves(a: int, d: int)
    requires
        d != 0,
    ensures
        ratio(2 * a, d - (-d)) == ratio(a, d),
{
    assert(d - (-d) == 2 * d);
    if d > 0 {
        vstd::arithmetic::div_mod::lemma_fundamental_div_mod(a, d);
        let q = a / d;
        let m = a % d;
        assert(2 * a == (2 * d) * q + 2 * m) by (nonlinear_arith)
            requires
                a == d * q + m,
        ;
        vstd::arithmetic::div_mod::lemma_fundamental_div_mod_converse(2 * a, 2 * d, q, 2 * m);
    } else {
        vstd::arithmetic::div_mod::lemma_fundamental_div_mod(-a, -d);
        let q = (-a) / (-d);
        let m = (-a) % (-d);
        assert(-(2 * a) == (-(2 * d)) * q + 2 * m) by (nonlinear_arith)
            requires
                -a == (-d) * q + m,
        ;
        vstd::arithmetic::div_mod::lemma_fundamental_div_mod_converse(
            -(2 * a),
            -(2 * d),
            q,
            2 * m,
        );
    }
}

/// The viewport's screen coordinate of `ndc` before rounding, in units of
/// `1 / (2 ONE)` sub-pixel: `SUBPIXEL * (ndc * size + (size - 1) * ONE)`.
pub open spec fn to_screen_exact(ndc: int, size: int) -> int {
    SUBPIXEL * (ndc * size + (size - 1) * ONE)
}

/// The viewport map is invertible: the normalized device coordinate is
/// recovered exactly from the unrounded screen coordinate, and the rounded
/// screen coordinate lies within one sub-pixel below the unrounded one.
pub proof fn lemma_viewport_inverse(ndc: int, size: int)
    requires
        size >= 1,
    ensures
        (to_screen_exact(ndc, size) - SUBPIXEL * (size - 1) * ONE) / (SUBPIXEL * size) == ndc,
        to_screen_spec(ndc, size) * (2 * ONE) <= to_screen_exact(ndc, size) < (to_screen_spec(
            ndc,
            size,
        ) + 1) * (2 * ONE),
{
    let e = to_screen_exact(ndc, size);
    let k = SUBPIXEL * size;
    assert(e - SUBPIXEL * (size - 1) * ONE == ndc * k) by (nonlinear_arith)
        requires
            e == SUBPIXEL * (ndc * size + (size - 1) * ONE),
            k == SUBPIXEL * size,
    ;
    assert(k > 0) by (nonlinear_arith)
        requires
            k == SUBPIXEL * size,
            size >= 1,
    ;
    vstd::arithmetic::div_mod::lemma_div_multiples_vanish(ndc, k);
    assert(ndc * k == k * ndc) by (nonlinear_arith);
    let o = 2 * ONE as int;
    vstd::arithmetic::div_mod::lemma_fundamental_div_mod(e, o);
    assert(to_screen_spec(ndc, size) == e / o);
    assert((e / o) * o <= e < (e / o + 1) * o) by (nonlinear_arith)
        requires
            e == o * (e / o) + e % o,
            0 <= e % o < o,
    ;
}

/// The numerator of the normalized depth that the exact frustum matrix
/// gives a point at view-space depth `z`: `(f + n) z - 2 f n`.
pub open spec fn frustum_depth_num(n: int, f: int, z: int) -> int {
    (f + n) * z - 2 * f * n
}

/// The denominator of that normalized depth: `(n - f) z`, the clip `w`
/// times `n - f`.
pub open spec fn frustum_depth_den(n: int, f: int, z: int) -> int {
    (n - f) * z
}

/// `(a x - g) (c y) = (a c) (x y) - (g c) y`.
proof fn lemma_expand_product(a: int, g: int, c: int, x: int, y: int)
    ensures
        (a * x - g) * (c * y) == (a * c) * (x * y) - (g * c) * y,
{
    assert((a * x - g) * (c * y) == (a * x) * (c * y) - g * (c * y)) by (nonlinear_arith);
    assert((a * x) * (c * y) == (a * c) * (x * y)) by (nonlinear_arith);
    assert(g * (c * y) == (g * c) * y) by (nonlinear_arith);
}

/// Looking down the negative z axis (`f < n < 0`), a nearer point gets a
/// strictly greater normalized depth: for `z2 < z1 < 0`,
/// `num1 / den1 > num2 / den2` (both denominators are negative, so this is
/// `num1 * den2 > num2 * den1`). So under the greater-wins depth test the
/// nearer of two overlapping points is kept.
pub proof fn lemma_depth_grows_toward_near(n: int, f: int, z1: int, z2: int)
    requires
        f < n < 0,
        z2 < z1 < 0,
    ensures
        frustum_depth_den(n, f, z1) < 0,
        frustum_depth_den(n, f, z2) < 0,
        frustum_depth_num(n, f, z1) * frustum_depth_den(n, f, z2) > frustum_depth_num(n, f, z2)
            * frustum_depth_den(n, f, z1),
{
    let (a, c, g) = (f + n, n - f, 2 * f * n);
    let p = a * c;
    let q = g * c;
    lemma_expand_product(a, g, c, z1, z2);
    lemma_expand_product(a, g, c, z2, z1);
    assert(z2 * z1 == z1 * z2) by (nonlinear_arith);
    assert((n - f) * z1 < 0 && (n - f) * z2 < 0) by (nonlinear_arith)
        requires
            f < n,
            z1 < 0,
            z2 < 0,
    ;
    assert(q > 0) by (nonlinear_arith)
        requires
            q == g * c,
            g == 2 * f * n,
            c == n - f,
            f < n < 0,
    ;
    assert(q * z1 > q * z2) by (nonlinear_arith)
        requires
            q > 0,
            z1 > z2,
    ;
}

} // verus!
