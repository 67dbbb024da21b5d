//! Saturating fixed-point arithmetic on `i64` micro-units.
//!
//! A value `x` stands for the real number `x / SCALE`.  Every operation
//! truncates toward zero and saturates at `FX_MIN` / `FX_MAX`, so the
//! executable code can never overflow or panic: numerical stress degrades
//! gracefully instead of failing, as a real-time audio path requires.

use vstd::prelude::*;
use vstd::arithmetic::div_mod::*;

verus! {

/// One unit (1.0) in micro-units.
pub const SCALE: i64 = 1_000_000;

/// Saturation ceiling: one billion units.
pub const FX_MAX: i64 = 1_000_000_000_000_000;

/// Saturation floor.
pub const FX_MIN: i64 = -1_000_000_000_000_000;

/// Clamp a mathematical integer into the representable fixed-point range.
pub open spec fn clamp_fx(x: int) -> int {
    if x > FX_MAX as int {
        FX_MAX as int
    } else if x < FX_MIN as int {
        FX_MIN as int
    } else {
        x
    }
}

/// Division truncating toward zero (the machine convention), for a
/// positive divisor.
pub open spec fn trunc_div(a: int, b: int) -> int
    recommends
        b >= 1,
{
    if a >= 0 {
        a / b
    } else {
        -((-a) / b)
    }
}

/// Saturating fixed-point product: `(a * b) / SCALE`, truncated and clamped.
pub open spec fn mul_fx(a: int, b: int) -> int {
    clamp_fx(trunc_div(a * b, SCALE as int))
}

/// Saturating fixed-point quotient: `(a * SCALE) / b`, truncated and clamped.
pub open spec fn div_fx(a: int, b: int) -> int
    recommends
        b >= 1,
{
    clamp_fx(trunc_div(a * (SCALE as int), b))
}

/// Saturating fixed-point sum.
pub open spec fn add_fx(a: int, b: int) -> int {
    clamp_fx(a + b)
}

/// The integer square root: the greatest `r` with `r * r <= n`.
pub open spec fn isqrt_spec(n: int) -> int
    decreases n,
{
    if n <= 0 {
        0
    } else {
        let r = isqrt_spec(n - 1);
        if (r + 1) * (r + 1) <= n {
            r + 1
        } else {
            r
        }
    }
}

/// Square root of a fixed-point value, staying in fixed point:
/// `sqrt(x / SCALE) * SCALE == isqrt(x * SCALE)` up to truncation.
pub open spec fn sqrt_fx(x: int) -> int {
    isqrt_spec(x * (SCALE as int))
}

/// `isqrt_spec(n)` is exactly the greatest root not exceeding `n`.
pub proof fn lemma_isqrt(n: int)
    requires
        n >= 0,
    ensures
        isqrt_spec(n) >= 0,
        isqrt_spec(n) * isqrt_spec(n) <= n,
        n < (isqrt_spec(n) + 1) * (isqrt_spec(n) + 1),
    decreases n,
{
    if n > 0 {
        lemma_isqrt(n - 1);
        let r = isqrt_spec(n - 1);
        if (r + 1) * (r + 1) <= n {
            assert(n < (r + 2) * (r + 2)) by (nonlinear_arith)
                requires
                    n - 1 < (r + 1) * (r + 1),
                    r >= 0,
            ;
        }
    }
}

/// Any two non-negative integers bracketing `n` the way a square root does
/// are the same number.
pub proof fn lemma_sqrt_unique(n: int, r1: int, r2: int)
    requires
        r1 >= 0,
        r2 >= 0,
        r1 * r1 <= n,
        n < (r1 + 1) * (r1 + 1),
        r2 * r2 <= n,
        n < (r2 + 1) * (r2 + 1),
    ensures
        r1 == r2,
{
    if r1 < r2 {
        assert(false) by (nonlinear_arith)
            requires
                r1 >= 0,
                r2 >= 0,
                r1 < r2,
                n < (r1 + 1) * (r1 + 1),
                r2 * r2 <= n,
        ;
    }
    if r2 < r1 {
        assert(false) by (nonlinear_arith)
            requires
                r1 >= 0,
                r2 >= 0,
                r2 < r1,
                n < (r2 + 1) * (r2 + 1),
                r1 * r1 <= n,
        ;
    }
}

/// Truncating division is monotone in the dividend.
pub proof fn lemma_trunc_div_mono(a1: int, a2: int, b: int)
    requires
        a1 <= a2,
        b >= 1,
    ensures
        trunc_div(a1, b) <= trunc_div(a2, b),
{
    if a1 >= 0 {
        lemma_div_is_ordered(a1, a2, b);
    } else if a2 >= 0 {
        lemma_div_pos_is_pos(a2, b);
        lemma_div_pos_is_pos(-a1, b);
    } else {
        lemma_div_is_ordered(-a2, -a1, b);
    }
}

/// Truncating division never grows a non-negative dividend.
pub proof fn lemma_trunc_div_bound(a: int, b: int)
    requires
        a >= 0,
        b >= 1,
    ensures
        0 <= trunc_div(a, b) <= a,
{
    lemma_div_pos_is_pos(a, b);
    lemma_div_nonincreasing(a, b);
}

/// Clamping is monotone.
pub proof fn lemma_clamp_mono(x1: int, x2: int)
    requires
        x1 <= x2,
    ensures
        clamp_fx(x1) <= clamp_fx(x2),
{
}

/// The product is monotone in the second factor when the first is
/// non-negative.
pub proof fn lemma_mul_fx_mono(a: int, b1: int, b2: int)
    requires
        a >= 0,
        b1 <= b2,
    ensures
        mul_fx(a, b1) <= mul_fx(a, b2),
{
    assert(a * b1 <= a * b2) by (nonlinear_arith)
        requires
            a >= 0,
            b1 <= b2,
    ;
    lemma_trunc_div_mono(a * b1, a * b2, SCALE as int);
    lemma_clamp_mono(trunc_div(a * b1, SCALE as int), trunc_div(a * b2, SCALE as int));
}

/// Scaling by a factor in `[0, 1]` keeps a non-negative value between
/// zero and itself.
pub proof fn lemma_mul_fx_unit_interval(a: int, s: int)
    requires
        0 <= a <= FX_MAX as int,
        0 <= s <= SCALE as int,
    ensures
        0 <= mul_fx(a, s) <= a,
{
    assert(0 <= a * s <= a * (SCALE as int)) by (nonlinear_arith)
        requires
            a >= 0,
            0 <= s <= SCALE as int,
    ;
    lemma_trunc_div_bound(a * s, SCALE as int);
    lemma_trunc_div_mono(a * s, a * (SCALE as int), SCALE as int);
    lemma_div_by_multiple(a, SCALE as int);
}

/// The product of two machine doublewords fits in a quadword.
proof fn lemma_i64_prod_fits(a: int, b: int)
    requires
        -9_223_372_036_854_775_808 <= a <= 9_223_372_036_854_775_807,
        -9_223_372_036_854_775_808 <= b <= 9_223_372_036_854_775_807,
    ensures
        -85_070_591_730_234_615_865_843_651_857_942_052_864 <= a * b
            <= 85_070_591_730_234_615_865_843_651_857_942_052_864,
{
    assert(-85_070_591_730_234_615_865_843_651_857_942_052_864 <= a * b
        <= 85_070_591_730_234_615_865_843_651_857_942_052_864) by (nonlinear_arith)
        requires
            -9_223_372_036_854_775_808 <= a <= 9_223_372_036_854_775_807,
            -9_223_372_036_854_775_808 <= b <= 9_223_372_036_854_775_807,
    ;
}

/// Clamp a double-width intermediate back into the fixed-point range.
fn fx_clamp_wide(x: i128) -> (r: i64)
    ensures
        r as int == clamp_fx(x as int),
{
    if x > FX_MAX as i128 {
        FX_MAX
    } else if x < FX_MIN as i128 {
        FX_MIN
    } else {
        x as i64
    }
}

/// Divide a double-width value by a positive divisor, truncating toward
/// zero.
fn wide_trunc_div(a: i128, b: i128) -> (r: i128)
    requires
        1 <= b,
        -85_070_591_730_234_615_865_843_651_857_942_052_864 <= a
            <= 85_070_591_730_234_615_865_843_651_857_942_052_864,
    ensures
        r as int == trunc_div(a as int, b as int),
{
    if a >= 0 {
        let q: u128 = (a as u128) / (b as u128);
        q as i128
    } else {
        let q: u128 = ((-a) as u128) / (b as u128);
        proof {
            lemma_div_nonincreasing(-(a as int), b as int);
            lemma_div_pos_is_pos(-(a as int), b as int);
        }
        -(q as i128)
    }
}

/// Saturating fixed-point multiplication.
pub fn fx_mul(a: i64, b: i64) -> (r: i64)
    ensures
        r as int == mul_fx(a as int, b as int),
{
    proof {
        lemma_i64_prod_fits(a as int, b as int);
    }
    let p: i128 = (a as i128) * (b as i128);
    let q: i128 = wide_trunc_div(p, SCALE as i128);
    proof {
        lemma_trunc_div_bound(if p as int >= 0 { p as int } else { -(p as int) }, SCALE as int);
    }
    fx_clamp_wide(q)
}

/// Saturating fixed-point division by a positive divisor.
pub fn fx_div(a: i64, b: i64) -> (r: i64)
    requires
        b >= 1,
    ensures
        r as int == div_fx(a as int, b as int),
{
    proof {
        lemma_i64_prod_fits(a as int, SCALE as int);
    }
    let p: i128 = (a as i128) * (SCALE as i128);
    let q: i128 = wide_trunc_div(p, b as i128);
    proof {
        lemma_trunc_div_bound(if p as int >= 0 { p as int } else { -(p as int) }, b as int);
    }
    fx_clamp_wide(q)
}

/// Saturating fixed-point addition.
pub fn fx_add(a: i64, b: i64) -> (r: i64)
    ensures
        r as int == add_fx(a as int, b as int),
{
    let s: i128 = (a as i128) + (b as i128);
    fx_clamp_wide(s)
}

/// Division of a machine word by a positive divisor, truncating toward
/// zero.
pub fn div_trunc(a: i64, b: i64) -> (r: i64)
    requires
        1 <= b,
        -9_223_372_036_854_775_807 <= a,
    ensures
        r as int == trunc_div(a as int, b as int),
{
    if a >= 0 {
        proof {
            lemma_div_nonincreasing(a as int, b as int);
            lemma_div_pos_is_pos(a as int, b as int);
        }
        ((a as u64) / (b as u64)) as i64
    } else {
        proof {
            lemma_div_nonincreasing(-(a as int), b as int);
            lemma_div_pos_is_pos(-(a as int), b as int);
        }
        -((((-a) as u64) / (b as u64)) as i64)
    }
}

/// Square root in fixed point, by binary search for the greatest root.
pub fn fx_sqrt(x: i64) -> (r: i64)
    requires
        0 <= x,
    ensures
        r as int == sqrt_fx(x as int),
        r >= 0,
{
    proof {
        lemma_i64_prod_fits(x as int, SCALE as int);
    }
    let n: u128 = (x as u128) * (SCALE as u128);
    let ghost ni: int = x as int * (SCALE as int);
    proof {
        lemma_isqrt(ni);
    }
    if n == 0 {
        proof {
            lemma_sqrt_unique(ni, 0, isqrt_spec(ni));
        }
        return 0;
    }
    let mut lo: u128 = 0;
    let mut hi: u128 = 4_400_000_000_000;
    proof {
        assert((x as int) * (SCALE as int) < 4_400_000_000_000 * 4_400_000_000_000)
            by (nonlinear_arith)
            requires
                0 <= (x as int) < 10_000_000_000_000_000_000,
        ;
    }
    while hi - lo > 1
        invariant
            0 <= lo < hi <= 4_400_000_000_000,
            (lo as int) * (lo as int) <= ni,
            ni < (hi as int) * (hi as int),
            ni == x as int * (SCALE as int),
            n as int == ni,
        decreases hi - lo,
    {
        let mid: u128 = lo + (hi - lo) / 2;
        proof {
            assert((mid as int) * (mid as int) <= 19_360_000_000_000_000_000_000_000)
                by (nonlinear_arith)
                requires
                    0 <= (mid as int) <= 4_400_000_000_000,
            ;
        }
        if mid * mid <= n {
            lo = mid;
        } else {
            hi = mid;
        }
    }
    proof {
        lemma_sqrt_unique(ni, lo as int, isqrt_spec(ni));
    }
    lo as i64
}

} // verus!
