use vstd::prelude::*;
use vstd::arithmetic::div_mod::lemma_fundamental_div_mod;
use vstd::arithmetic::div_mod::lemma_fundamental_div_mod_converse;

verus! {

/// The fixed-point value that stands for 1.0 (depth, normalized device
/// coordinates, texture coordinates, light intensities, vector components).
pub const ONE: i64 = 65536;

/// Sub-pixel steps per pixel along each screen axis: a screen coordinate `s`
/// lies in pixel `s / SUBPIXEL`, whose center is at `SUBPIXEL * p + SUBPIXEL / 2`.
pub const SUBPIXEL: i64 = 16;

/// Largest magnitude of a screen-vertex coordinate or of a vertex attribute.
pub const LIMIT: i64 = 0x800_0000;

/// `v` lies in `[-b, b]`.
pub open spec fn within(v: int, b: int) -> bool {
    -b <= v <= b
}

/// A product of bounded factors is bounded by the product of the bounds.
pub proof fn lemma_mul_within(a: int, b: int, ba: int, bb: int)
    requires
        within(a, ba),
        within(b, bb),
    ensures
        within(a * b, ba * bb),
{
    assert(-(ba * bb) <= a * b <= ba * bb) by (nonlinear_arith)
        requires
            -ba <= a <= ba,
            -bb <= b <= bb,
    ;
}

/// Division rounded down, for a positive divisor.
pub fn floor_div(num: i128, den: i128) -> (r: i128)
    requires
        den > 0,
        num > i128::MIN,
    ensures
        r == num / den,
{
    if num >= 0 {
        num / den
    } else {
        let m: i128 = -num - 1;
        let q: i128 = m / den;
        proof {
            lemma_fundamental_div_mod(m as int, den as int);
            let rem = m as int % den as int;
            assert(q == m as int / den as int);
            assert(num == (-q - 1) * den + (den - rem - 1)) by (nonlinear_arith)
                requires
                    m == den * q + rem,
                    num == -m - 1,
            ;
            lemma_fundamental_div_mod_converse(num as int, den as int, -q - 1, den - rem - 1);
        }
        -q - 1
    }
}

/// `n / d` rounded down, for `d != 0`.
pub open spec fn ratio(n: int, d: int) -> int {
    if d > 0 {
        n / d
    } else {
        (-n) / (-d)
    }
}

/// Scaling numerator and positive divisor by one positive factor keeps the
/// quotient.
proof fn lemma_div_scale_pos(n: int, d: int, m: int)
    requires
        d > 0,
        m > 0,
    ensures
        (m * n) / (m * d) == n / d,
{
    lemma_fundamental_div_mod(n, d);
    let q = n / d;
    let r = n % d;
    assert(m * n == (m * d) * q + m * r) by (nonlinear_arith)
        requires
            n == d * q + r,
    ;
    assert(0 <= m * r < m * d) by (nonlinear_arith)
        requires
            0 <= r < d,
            m > 0,
    ;
    lemma_fundamental_div_mod_converse(m * n, m * d, q, m * r);
}

/// Scaling numerator and divisor by one nonzero factor keeps the rounded
/// quotient.
pub proof fn lemma_ratio_scale(n: int, d: int, k: int)
    requires
        d != 0,
        k != 0,
    ensures
        k * d != 0,
        ratio(k * n, k * d) == ratio(n, d),
{
    assert(k * d != 0) by (nonlinear_arith)
        requires
            d != 0,
            k != 0,
    ;
    if d > 0 && k > 0 {
        assert(k * d > 0) by (nonlinear_arith)
            requires
                d > 0,
                k > 0,
        ;
        lemma_div_scale_pos(n, d, k);
    } else if d > 0 {
        assert(k * d < 0 && -(k * n) == (-k) * n && -(k * d) == (-k) * d) by (nonlinear_arith)
            requires
                d > 0,
                k < 0,
        ;
        lemma_div_scale_pos(n, d, -k);
    } else if k > 0 {
        assert(k * d < 0 && -(k * n) == k * (-n) && -(k * d) == k * (-d)) by (nonlinear_arith)
            requires
                d < 0,
                k > 0,
        ;
        lemma_div_scale_pos(-n, -d, k);
    } else {
        assert(k * d > 0 && k * n == (-k) * (-n) && k * d == (-k) * (-d)) by (nonlinear_arith)
            requires
                d < 0,
                k < 0,
        ;
        lemma_div_scale_pos(-n, -d, -k);
    }
}

} // verus!
