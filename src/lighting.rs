use vstd::prelude::*;
use crate::fixed::{floor_div, lemma_mul_within, within, LIMIT, ONE};

verus! {

/// A vector of three fixed-point components (`ONE` is 1.0).
pub type Vec3 = (i64, i64, i64);

/// Largest magnitude of one light's contribution to an intensity.
const TERM_MAX: i128 = 0x4_0000_0000_0000_0000;

/// A directional light: the direction it shines along, which must be a unit
/// vector for the lighting formulas to hold, and its weight.
#[derive(Clone, Copy, Debug, PartialEq, Eq)]
pub struct Light {
    pub dir: Vec3,
    pub weight: i64,
}

/// Each component lies in `[-ONE, ONE]`, as those of a unit vector do.
pub open spec fn unit_bounded(v: Vec3) -> bool {
    within(v.0 as int, ONE as int) && within(v.1 as int, ONE as int) && within(
        v.2 as int,
        ONE as int,
    )
}

/// A light with a bounded direction.
pub open spec fn light_wf(l: Light) -> bool {
    unit_bounded(l.dir)
}

/// Every light is well formed.
pub open spec fn lights_wf(lights: Seq<Light>) -> bool {
    forall|i: int| 0 <= i < lights.len() ==> light_wf(#[trigger] lights[i])
}

/// An intensity limited to `[-LIMIT, LIMIT]`.
pub open spec fn capped(v: int) -> int {
    if v < -LIMIT {
        -LIMIT as int
    } else if v > LIMIT {
        LIMIT as int
    } else {
        v
    }
}

fn cap(v: i128) -> (r: i64)
    ensures
        r == capped(v as int),
{
    if v < -(LIMIT as i128) {
        -LIMIT
    } else if v > LIMIT as i128 {
        LIMIT
    } else {
        v as i64
    }
}

/// The fixed-point dot product, rounded down.
pub open spec fn dot(a: Vec3, b: Vec3) -> int {
    (a.0 * b.0 + a.1 * b.1 + a.2 * b.2) / (ONE as int)
}

/// The diffuse contribution of one light at a vertex of normal `n`:
/// `max(0, n · dir) * weight`.
pub open spec fn lambert(n: Vec3, l: Light) -> int {
    let d = dot(n, l.dir);
    if d > 0 {
        d * l.weight / (ONE as int)
    } else {
        0
    }
}

/// The diffuse intensity at a vertex of normal `n`: the sum of every light's
/// contribution, limited to `[-LIMIT, LIMIT]` after each addition.
pub open spec fn diffuse_sum(n: Vec3, lights: Seq<Light>) -> int
    decreases lights.len(),
{
    if lights.len() == 0 {
        0
    } else {
        capped(diffuse_sum(n, lights.drop_last()) + lambert(n, lights.last()))
    }
}

/// `c` raised to the power `e` in fixed point, rounding down after each
/// product.
pub open spec fn pow_fixed(c: int, e: nat) -> int
    decreases e,
{
    if e == 0 {
        ONE as int
    } else {
        pow_fixed(c, (e - 1) as nat) * c / (ONE as int)
    }
}

/// `|h · n|`, at most 1.0.
pub open spec fn cos_abs(h: Vec3, n: Vec3) -> int {
    let d = dot(h, n);
    if d < 0 {
        if -d > ONE {
            ONE as int
        } else {
            -d
        }
    } else if d > ONE {
        ONE as int
    } else {
        d
    }
}

/// The specular contribution of one light with halfway vector `h` at a
/// vertex of normal `n`: `|h · n|^e * weight`.
pub open spec fn phong(n: Vec3, h: Vec3, weight: int, e: nat) -> int {
    pow_fixed(cos_abs(h, n), e) * weight / (ONE as int)
}

/// The specular intensity at a vertex of normal `n`: the sum of every
/// light's contribution, light `i` having halfway vector `halfways[i]`,
/// limited to `[-LIMIT, LIMIT]` after each addition.
pub open spec fn specular_sum(n: Vec3, lights: Seq<Light>, halfways: Seq<Vec3>, e: nat) -> int
    decreases lights.len(),
{
    if lights.len() == 0 {
        0
    } else {
        capped(
            specular_sum(n, lights.drop_last(), halfways, e) + phong(
                n,
                halfways[lights.len() - 1],
                lights.last().weight as int,
                e,
            ),
        )
    }
}

fn dot_exec(a: Vec3, b: Vec3) -> (r: i64)
    requires
        unit_bounded(a),
        unit_bounded(b),
    ensures
        r == dot(a, b),
        within(r as int, 3 * ONE as int),
{
    proof {
        let o = ONE as int;
        lemma_mul_within(a.0 as int, b.0 as int, o, o);
        lemma_mul_within(a.1 as int, b.1 as int, o, o);
        lemma_mul_within(a.2 as int, b.2 as int, o, o);
    }
    let s: i128 = a.0 as i128 * b.0 as i128 + a.1 as i128 * b.1 as i128 + a.2 as i128
        * b.2 as i128;
    let d = floor_div(s, ONE as i128);
    proof {
        assert(within(d as int, 3 * ONE as int)) by (nonlinear_arith)
            requires
                d as int == s as int / (ONE as int),
                within(s as int, 3 * ONE * ONE),
                ONE > 0,
        ;
    }
    d as i64
}

/// One light's diffuse contribution (see `lambert`).
fn lambert_exec(n: Vec3, l: Light) -> (r: i128)
    requires
        unit_bounded(n),
        light_wf(l),
    ensures
        r == lambert(n, l),
        within(r as int, TERM_MAX as int),
{
    let d = dot_exec(n, l.dir);
    if d > 0 {
        proof {
            lemma_mul_within(d as int, l.weight as int, 3 * ONE as int, 0x8000_0000_0000_0000);
        }
        let t = floor_div(d as i128 * l.weight as i128, ONE as i128);
        proof {
            assert(within(t as int, TERM_MAX as int)) by (nonlinear_arith)
                requires
                    t as int == (d * l.weight) / (ONE as int),
                    within(d * l.weight, 3 * ONE * 0x8000_0000_0000_0000),
                    ONE == 65536,
                    TERM_MAX == 0x4_0000_0000_0000_0000,
            ;
        }
        t
    } else {
        0
    }
}

/// The diffuse intensity at a vertex of normal `n` (see `diffuse_sum`).
pub fn diffuse_intensity(n: Vec3, lights: &Vec<Light>) -> (r: i64)
    requires
        unit_bounded(n),
        lights_wf(lights@),
    ensures
        r == diffuse_sum(n, lights@),
        within(r as int, LIMIT as int),
{
    let mut acc: i64 = 0;
    let mut i: usize = 0;
    while i < lights.len()
        invariant
            i <= lights@.len(),
            unit_bounded(n),
            lights_wf(lights@),
            acc == diffuse_sum(n, lights@.take(i as int)),
            within(acc as int, LIMIT as int),
        decreases lights.len() - i,
    {
        let t = lambert_exec(n, lights[i]);
        proof {
            assert(lights@.take(i + 1).drop_last() =~= lights@.take(i as int));
        }
        acc = cap(acc as i128 + t);
        i += 1;
    }
    proof {
        assert(lights@.take(i as int) =~= lights@);
    }
    acc
}

/// `c` raised to the power `e` in fixed point (see `pow_fixed`), for `c` in
/// `[0, ONE]`.
pub fn pow_fixed_exec(c: i64, e: u32) -> (r: i64)
    requires
        0 <= c <= ONE,
    ensures
        r == pow_fixed(c as int, e as nat),
        0 <= r <= ONE,
{
    let mut acc: i64 = ONE;
    let mut k: u32 = 0;
    while k < e
        invariant
            k <= e,
            0 <= c <= ONE,
            acc == pow_fixed(c as int, k as nat),
            0 <= acc <= ONE,
        decreases e - k,
    {
        proof {
            assert(0 <= acc * c <= ONE * ONE) by (nonlinear_arith)
                requires
                    0 <= c <= ONE,
                    0 <= acc <= ONE,
            ;
        }
        let p: i64 = acc * c / ONE;
        proof {
            assert(p <= ONE) by (nonlinear_arith)
                requires
                    p as int == (acc * c) / (ONE as int),
                    acc * c <= ONE * ONE,
                    ONE > 0,
            ;
        }
        acc = p;
        k += 1;
    }
    acc
}

/// One light's specular contribution (see `phong`).
fn phong_exec(n: Vec3, h: Vec3, weight: i64, e: u32) -> (r: i128)
    requires
        unit_bounded(n),
        unit_bounded(h),
    ensures
        r == phong(n, h, weight as int, e as nat),
        within(r as int, TERM_MAX as int),
{
    let d = dot_exec(h, n);
    let c: i64 = if d < 0 {
        if -d > ONE {
            ONE
        } else {
            -d
        }
    } else if d > ONE {
        ONE
    } else {
        d
    };
    let p = pow_fixed_exec(c, e);
    proof {
        lemma_mul_within(p as int, weight as int, ONE as int, 0x8000_0000_0000_0000);
    }
    let t = floor_div(p as i128 * weight as i128, ONE as i128);
    proof {
        assert(within(t as int, TERM_MAX as int)) by (nonlinear_arith)
            requires
                t as int == (p * weight) / (ONE as int),
                within(p * weight, ONE * 0x8000_0000_0000_0000),
                ONE == 65536,
                TERM_MAX == 0x4_0000_0000_0000_0000,
        ;
    }
    t
}

/// The specular intensity at a vertex of normal `n` (see `specular_sum`).
pub fn specular_intensity(n: Vec3, lights: &Vec<Light>, halfways: &Vec<Vec3>, e: u32) -> (r: i64)
    requires
        unit_bounded(n),
        lights_wf(lights@),
        halfways@.len() == lights@.len(),
        forall|i: int| 0 <= i < halfways@.len() ==> unit_bounded(#[trigger] halfways@[i]),
    ensures
        r == specular_sum(n, lights@, halfways@, e as nat),
        within(r as int, LIMIT as int),
{
    let mut acc: i64 = 0;
    let mut i: usize = 0;
    while i < lights.len()
        invariant
            i <= lights@.len(),
            unit_bounded(n),
            lights_wf(lights@),
            halfways@.len() == lights@.len(),
            forall|j: int| 0 <= j < halfways@.len() ==> unit_bounded(#[trigger] halfways@[j]),
            acc == specular_sum(n, lights@.take(i as int), halfways@, e as nat),
            within(acc as int, LIMIT as int),
        decreases lights.len() - i,
    {
        let l = lights[i];
        let t = phong_exec(n, halfways[i], l.weight, e);
        proof {
            assert(lights@.take(i + 1).drop_last() =~= lights@.take(i as int));
        }
        acc = cap(acc as i128 + t);
        i += 1;
    }
    proof {
        assert(lights@.take(i as int) =~= lights@);
    }
    acc
}

} // verus!
