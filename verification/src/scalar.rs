//! Fixed-point scalars and the few arithmetic primitives the terrain code
//! is built from.

use vstd::prelude::*;
use vstd::arithmetic::div_mod::{lemma_fundamental_div_mod, lemma_fundamental_div_mod_converse,
    lemma_mod_bound};

verus! {

/// A real quantity in thousandths: `1500` stands for one and a half.
pub type Scalar = i32;

/// The scalar that stands for the number one.
pub const ONE: Scalar = 1000;

/// The integer nearest to `v` that a [`Scalar`] can hold.
pub open spec fn clamp(v: int) -> int {
    if v < i32::MIN as int {
        i32::MIN as int
    } else if v > i32::MAX as int {
        i32::MAX as int
    } else {
        v
    }
}

/// Quotient rounded towards zero, for a positive divisor.
pub open spec fn trunc_div(a: int, b: int) -> int
    recommends
        b > 0,
{
    if a >= 0 {
        a / b
    } else {
        -((-a) / b)
    }
}

/// Quotient rounded to the nearest integer, halves away from zero, for a
/// positive divisor.
pub open spec fn round_div(a: int, b: int) -> int
    recommends
        b > 0,
{
    if a >= 0 {
        (a + b / 2) / b
    } else {
        -((-a + b / 2) / b)
    }
}

/// `a * b / d`, rounded towards zero.
pub open spec fn mul_div(a: int, b: int, d: int) -> int
    recommends
        d > 0,
{
    trunc_div(a * b, d)
}

/// Where `h` lies between `lo` and `hi`, as a scalar: zero at `lo`, [`ONE`]
/// at `hi`, linear in between and beyond. An empty range (`hi == lo`) has no
/// scale, and every height is then at zero.
pub open spec fn normalized(h: int, lo: int, hi: int) -> int {
    if hi > lo {
        mul_div(h - lo, ONE as int, hi - lo)
    } else if hi < lo {
        mul_div(lo - h, ONE as int, lo - hi)
    } else {
        0
    }
}

/// The value at `t` on the line that is `a` at zero and `b` at [`ONE`],
/// clamped into the scalar range.
pub open spec fn lerp(a: int, b: int, t: int) -> int {
    clamp(a + mul_div(t, b - a, ONE as int))
}

/// Clamps a wide integer into the scalar range.
pub fn saturate(v: i128) -> (r: Scalar)
    ensures
        r as int == clamp(v as int),
{
    if v < -2147483648 {
        i32::MIN
    } else if v > 2147483647 {
        i32::MAX
    } else {
        v as i32
    }
}

/// The exact product of two 64-bit integers.
pub fn product(a: i64, b: i64) -> (r: i128)
    ensures
        r as int == a as int * b as int,
{
    assert(-0x4000_0000_0000_0000_0000_0000_0000_0000 <= a as int * b as int
        <= 0x4000_0000_0000_0000_0000_0000_0000_0000) by (nonlinear_arith)
        requires
            -0x8000_0000_0000_0000 <= a as int <= 0x7fff_ffff_ffff_ffff,
            -0x8000_0000_0000_0000 <= b as int <= 0x7fff_ffff_ffff_ffff,
    ;
    (a as i128) * (b as i128)
}

/// `a * b / d` rounded towards zero, computed without overflow.
pub fn quotient(a: i64, b: i64, d: i64) -> (r: i128)
    requires
        d > 0,
    ensures
        r as int == mul_div(a as int, b as int, d as int),
{
    let p = product(a, b);
    p / (d as i128)
}

/// Floor quotient and non-negative remainder of `a` by a positive `d`.
pub fn floor_div_mod(a: i64, d: i64) -> (qr: (i64, i64))
    requires
        d > 0,
    ensures
        qr.0 as int == a as int / d as int,
        qr.1 as int == a as int % d as int,
        0 <= qr.1 < d,
{
    let q = a / d;
    let m = a % d;
    proof {
        lemma_mod_bound(a as int, d as int);
        if a < 0 {
            let n = -(a as int);
            lemma_fundamental_div_mod(n, d as int);
            lemma_mod_bound(n, d as int);
            assert(q as int == -(n / (d as int)));
            assert(m as int == -(n % (d as int)));
            assert(0 <= n / (d as int) <= n) by (nonlinear_arith)
                requires
                    n >= 0,
                    d > 0,
            ;
            if m < 0 {
                assert(d >= 2) by {
                    assert(n % 1 == 0);
                }
                assert(2 * (n / (d as int)) <= n) by (nonlinear_arith)
                    requires
                        n >= 0,
                        d >= 2,
                ;
                assert((d as int) * (q as int - 1) == (d as int) * (q as int) - d as int)
                    by (nonlinear_arith);
                assert((d as int) * (q as int) == -((d as int) * (n / (d as int))))
                    by (nonlinear_arith)
                    requires
                        q as int == -(n / (d as int)),
                ;
                lemma_fundamental_div_mod_converse(
                    a as int,
                    d as int,
                    q as int - 1,
                    m as int + d as int,
                );
            } else {
                assert((d as int) * (q as int) == -((d as int) * (n / (d as int))))
                    by (nonlinear_arith)
                    requires
                        q as int == -(n / (d as int)),
                ;
                lemma_fundamental_div_mod_converse(
                    a as int,
                    d as int,
                    q as int,
                    m as int,
                );
            }
        }
    }
    if m < 0 {
        (q - 1, m + d)
    } else {
        (q, m)
    }
}

/// Computes [`round_div`] of two scalars.
pub fn round_quotient(a: Scalar, d: Scalar) -> (r: i64)
    requires
        d > 0,
    ensures
        r as int == round_div(a as int, d as int),
        -0x1_0000_0000 <= r <= 0x1_0000_0000,
{
    let half: i64 = (d as i64) / 2;
    if a >= 0 {
        let n: i64 = a as i64 + half;
        assert(0 <= n as int / d as int <= n) by (nonlinear_arith)
            requires
                n >= 0,
                d > 0,
        ;
        n / (d as i64)
    } else {
        let n: i64 = -(a as i64) + half;
        assert(0 <= n as int / d as int <= n) by (nonlinear_arith)
            requires
                n >= 0,
                d > 0,
        ;
        -(n / (d as i64))
    }
}

/// Computes [`normalized`].
pub fn normalize(h: Scalar, lo: Scalar, hi: Scalar) -> (t: i64)
    ensures
        t as int == normalized(h as int, lo as int, hi as int),
{
    if hi > lo {
        let q = quotient(h as i64 - lo as i64, ONE as i64, hi as i64 - lo as i64);
        proof {
            lemma_mul_div_range(h as int - lo as int, ONE as int, hi as int - lo as int);
        }
        q as i64
    } else if hi < lo {
        let q = quotient(lo as i64 - h as i64, ONE as i64, lo as i64 - hi as i64);
        proof {
            lemma_mul_div_range(lo as int - h as int, ONE as int, lo as int - hi as int);
        }
        q as i64
    } else {
        0
    }
}

/// Computes [`lerp`].
pub fn interpolate(a: Scalar, b: Scalar, t: i64) -> (r: Scalar)
    ensures
        r as int == lerp(a as int, b as int, t as int),
{
    let q = quotient(t, b as i64 - a as i64, ONE as i64);
    proof {
        lemma_mul_div_range(t as int, b as int - a as int, ONE as int);
        assert(-0x1_0000_0000 * 0x8000_0000_0000_0000 <= t as int * (b as int - a as int)
            <= 0x1_0000_0000 * 0x8000_0000_0000_0000) by (nonlinear_arith)
            requires
                -0x8000_0000_0000_0000 <= t as int <= 0x8000_0000_0000_0000,
                -0x1_0000_0000 <= b as int - a as int <= 0x1_0000_0000,
        ;
    }
    saturate(a as i128 + q)
}

/// Rounding towards zero commutes with negation.
pub proof fn lemma_trunc_div_neg(a: int, b: int)
    requires
        b > 0,
    ensures
        trunc_div(-a, b) == -trunc_div(a, b),
{
    if a == 0 {
        assert(0int / b == 0) by (nonlinear_arith)
            requires
                b > 0,
        ;
    }
}

/// Rounding towards zero never increases the magnitude and keeps the sign.
pub proof fn lemma_trunc_div_bounds(a: int, b: int)
    requires
        b > 0,
    ensures
        a >= 0 ==> 0 <= trunc_div(a, b) <= a,
        a <= 0 ==> a <= trunc_div(a, b) <= 0,
{
    if a >= 0 {
        assert(0 <= a / b <= a) by (nonlinear_arith)
            requires
                a >= 0,
                b > 0,
        ;
    } else {
        let m = -a;
        assert(0 <= m / b <= m) by (nonlinear_arith)
            requires
                m >= 0,
                b > 0,
        ;
    }
}

/// Rounding towards zero is monotone in the dividend.
pub proof fn lemma_trunc_div_monotone(a: int, c: int, b: int)
    requires
        b > 0,
        a <= c,
    ensures
        trunc_div(a, b) <= trunc_div(c, b),
{
    lemma_trunc_div_bounds(a, b);
    lemma_trunc_div_bounds(c, b);
    if a >= 0 {
        assert(a / b <= c / b) by (nonlinear_arith)
            requires
                0 <= a <= c,
                b > 0,
        ;
    } else if c < 0 {
        let m = -c;
        let n = -a;
        assert(m / b <= n / b) by (nonlinear_arith)
            requires
                0 <= m <= n,
                b > 0,
        ;
    }
}

/// Dividing a multiple of the divisor gives the multiplier back.
pub proof fn lemma_trunc_div_exact(a: int, d: int)
    requires
        d > 0,
    ensures
        trunc_div(a * d, d) == a,
{
    if a >= 0 {
        assert(a * d >= 0 && (a * d) / d == a) by (nonlinear_arith)
            requires
                a >= 0,
                d > 0,
        ;
    } else {
        let m = -a;
        assert(a * d < 0 && -(a * d) == m * d && (m * d) / d == m) by (nonlinear_arith)
            requires
                m == -a,
                m > 0,
                d > 0,
        ;
    }
}

/// A quotient rounded towards zero is no larger in magnitude than the
/// product it divides.
pub proof fn lemma_mul_div_range(a: int, b: int, d: int)
    requires
        d > 0,
    ensures
        a * b >= 0 ==> 0 <= mul_div(a, b, d) <= a * b,
        a * b <= 0 ==> a * b <= mul_div(a, b, d) <= 0,
{
    lemma_trunc_div_bounds(a * b, d);
}

/// The low end of a range is at zero and the high end at one.
pub proof fn lemma_normalized_ends(lo: int, hi: int)
    requires
        lo != hi,
    ensures
        normalized(lo, lo, hi) == 0,
        normalized(hi, lo, hi) == ONE,
{
    let d = if hi > lo { hi - lo } else { lo - hi };
    lemma_trunc_div_exact(ONE as int, d);
    assert(d * ONE == ONE * d) by (nonlinear_arith);
    assert(0 * (ONE as int) == 0);
    assert(0int / d == 0) by (nonlinear_arith)
        requires
            d > 0,
    ;
}

} // verus!
