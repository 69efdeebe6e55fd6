//! Saturating fixed-point scalar arithmetic with six decimal places.
//!
//! A scalar `x: i64` stands for the real number `x / 1_000_000`. All
//! operations are total: results outside `[-FX_SAT, FX_SAT]` are clamped,
//! and division is truncating (toward zero) on the magnitudes, like the
//! hardware division the renderer replaces. Every helper, including the
//! transcendental kernels (`fx_exp_neg`, `fx_cos`, `fx_sin`), promises its
//! exact result as a value of a spec function.

use vstd::prelude::*;

verus! {

/// One unit: the fixed-point encoding of `1.0`.
pub const FX_ONE: i64 = 1_000_000;

/// Half a unit: the fixed-point encoding of `0.5`.
pub const FX_HALF: i64 = 500_000;

/// Saturation bound; `-FX_SAT` is used for the lower bound so that
/// negation never overflows.
pub const FX_SAT: i64 = 9_223_372_036_854_775_807;

/// Magnitude of a mathematical integer.
pub open spec fn iabs(n: int) -> int {
    if n < 0 { -n } else { n }
}

/// Clamp a mathematical integer into the representable range.
pub open spec fn sat64(x: int) -> int {
    if x > FX_SAT as int {
        FX_SAT as int
    } else if x < -(FX_SAT as int) {
        -(FX_SAT as int)
    } else {
        x
    }
}

/// Division truncating toward zero (the quotient of the magnitudes,
/// carrying the sign of the exact quotient). Unspecified for `d == 0`.
pub open spec fn tdiv(n: int, d: int) -> int {
    if (n < 0) != (d < 0) {
        -(iabs(n) / iabs(d))
    } else {
        iabs(n) / iabs(d)
    }
}

/// Exact value of the saturating fixed-point product.
pub open spec fn fx_mul_s(a: int, b: int) -> int {
    sat64(tdiv(a * b, FX_ONE as int))
}

/// Exact value of the saturating fixed-point quotient.
pub open spec fn fx_div_s(a: int, b: int) -> int {
    sat64(tdiv(a * (FX_ONE as int), b))
}

/// Exact value of the saturating sum.
pub open spec fn fx_add_s(a: int, b: int) -> int {
    sat64(a + b)
}

/// Exact value of the saturating difference.
pub open spec fn fx_sub_s(a: int, b: int) -> int {
    sat64(a - b)
}

/// Zero divided by anything non-zero is zero.
pub proof fn lemma_div_zero_num(d: int) by (nonlinear_arith)
    requires
        d > 0,
    ensures
        0int / d == 0,
{
}

/// Zero is absorbing for the fixed-point product.
pub proof fn lemma_fx_mul_zero(b: int)
    ensures
        fx_mul_s(0, b) == 0,
        fx_mul_s(b, 0) == 0,
{
    assert(0 * b == 0) by (nonlinear_arith);
    assert(b * 0 == 0) by (nonlinear_arith);
    lemma_div_zero_num(FX_ONE as int);
}

/// Zero divided by any non-zero scalar is zero.
pub proof fn lemma_fx_div_zero(d: int)
    requires
        d != 0,
    ensures
        fx_div_s(0, d) == 0,
{
    lemma_div_zero_num(iabs(d));
}

/// The quotient of non-negative by positive is non-negative.
pub proof fn lemma_div_nonneg(n: int, d: int) by (nonlinear_arith)
    requires
        n >= 0,
        d > 0,
    ensures
        n / d >= 0,
{
}

/// Division by a positive constant is monotone in the numerator.
pub proof fn lemma_div_mono_num(n1: int, n2: int, d: int) by (nonlinear_arith)
    requires
        0 <= n1 <= n2,
        d > 0,
    ensures
        n1 / d <= n2 / d,
{
}

/// Dividing a non-negative number by a larger denominator gives no more.
pub proof fn lemma_div_mono_denom(n: int, d: int, k: int) by (nonlinear_arith)
    requires
        n >= 0,
        d >= k,
        k > 0,
    ensures
        n / d <= n / k,
{
}

/// Multiplying and then dividing by the same positive constant cancels.
pub proof fn lemma_mul_div_cancel(x: int, c: int) by (nonlinear_arith)
    requires
        x >= 0,
        c > 0,
    ensures
        (x * c) / c == x,
{
}

/// Dividing a non-negative number by at least one does not increase it.
pub proof fn lemma_div_le(n: int, d: int) by (nonlinear_arith)
    requires
        n >= 0,
        d >= 1,
    ensures
        n / d <= n,
{
}

/// A truncated square root compared against a positive constant is the
/// same as the radicand compared against the constant's square.
pub proof fn lemma_sqrt_threshold(s: int, y: int, c: int) by (nonlinear_arith)
    requires
        s >= 0,
        c >= 1,
        s * s <= y,
        y < (s + 1) * (s + 1),
    ensures
        (s < c) <==> (y < c * c),
{
}

/// Relate the executable magnitude test (`fx_sqrt` under `c`) to the
/// squared form used in specifications.
pub proof fn lemma_mag_test(m: int, s: int, c: int)
    requires
        c >= 1,
        s >= 0,
        m <= 0 ==> s == 0,
        m > 0 ==> s * s <= m * (FX_ONE as int) && m * (FX_ONE as int) < (s + 1) * (s + 1),
    ensures
        (s < c) <==> (m * (FX_ONE as int) < c * c),
{
    if m > 0 {
        lemma_sqrt_threshold(s, m * (FX_ONE as int), c);
    } else {
        assert(m * (FX_ONE as int) <= 0) by (nonlinear_arith)
            requires
                m <= 0;
        assert(c * c >= 1) by (nonlinear_arith)
            requires
                c >= 1;
    }
}

/// Saturating fixed-point product: `a * b / FX_ONE`, truncated toward zero.
pub fn fx_mul(a: i64, b: i64) -> (r: i64)
    ensures
        r == fx_mul_s(a as int, b as int),
{
    proof {
        assert((a as int) * (b as int) <= 0x4000_0000_0000_0000_0000_0000_0000_0000
            && (a as int) * (b as int) >= -0x4000_0000_0000_0000_0000_0000_0000_0000)
            by (nonlinear_arith)
            requires
                -0x8000_0000_0000_0000 <= a as int <= 0x7FFF_FFFF_FFFF_FFFF,
                -0x8000_0000_0000_0000 <= b as int <= 0x7FFF_FFFF_FFFF_FFFF;
    }
    let p: i128 = (a as i128) * (b as i128);
    let neg: bool = p < 0;
    let mag: u128 = if neg { (-p) as u128 } else { p as u128 };
    let q: u128 = mag / 1_000_000u128;
    proof {
        assert(mag == iabs((a as int) * (b as int)));
        assert(q == iabs((a as int) * (b as int)) / (FX_ONE as int));
    }
    if neg {
        if q > 9_223_372_036_854_775_807u128 {
            -9_223_372_036_854_775_807i64
        } else {
            -(q as i64)
        }
    } else {
        if q > 9_223_372_036_854_775_807u128 {
            9_223_372_036_854_775_807i64
        } else {
            q as i64
        }
    }
}

/// Saturating fixed-point quotient: `a * FX_ONE / b`, truncated toward zero.
pub fn fx_div(a: i64, b: i64) -> (r: i64)
    requires
        b != 0,
    ensures
        r == fx_div_s(a as int, b as int),
{
    proof {
        assert((a as int) * (FX_ONE as int) <= 0x4000_0000_0000_0000_0000_0000_0000_0000
            && (a as int) * (FX_ONE as int) >= -0x4000_0000_0000_0000_0000_0000_0000_0000)
            by (nonlinear_arith)
            requires
                -0x8000_0000_0000_0000 <= a as int <= 0x7FFF_FFFF_FFFF_FFFF;
    }
    let p: i128 = (a as i128) * 1_000_000i128;
    let pneg: bool = p < 0;
    let magp: u128 = if pneg { (-p) as u128 } else { p as u128 };
    let bneg: bool = b < 0;
    let magb: u128 = if bneg { (-(b as i128)) as u128 } else { b as u128 };
    let q: u128 = magp / magb;
    proof {
        assert(magp == iabs((a as int) * (FX_ONE as int)));
        assert(magb == iabs(b as int));
        assert(q == iabs((a as int) * (FX_ONE as int)) / iabs(b as int));
    }
    if pneg != bneg {
        if q > 9_223_372_036_854_775_807u128 {
            -9_223_372_036_854_775_807i64
        } else {
            -(q as i64)
        }
    } else {
        if q > 9_223_372_036_854_775_807u128 {
            9_223_372_036_854_775_807i64
        } else {
            q as i64
        }
    }
}

/// Truncating division of a scalar by a plain positive integer.
pub fn fx_divi(a: i64, d: i64) -> (r: i64)
    requires
        d > 0,
    ensures
        r == sat64(tdiv(a as int, d as int)),
{
    let neg: bool = a < 0;
    let mag: u128 = if neg { (-(a as i128)) as u128 } else { a as u128 };
    let q: u128 = mag / (d as u128);
    proof {
        assert(mag == iabs(a as int));
        assert(q == iabs(a as int) / iabs(d as int));
    }
    if neg {
        if q > 9_223_372_036_854_775_807u128 {
            -9_223_372_036_854_775_807i64
        } else {
            -(q as i64)
        }
    } else {
        if q > 9_223_372_036_854_775_807u128 {
            9_223_372_036_854_775_807i64
        } else {
            q as i64
        }
    }
}

/// Saturating sum.
pub fn fx_add(a: i64, b: i64) -> (r: i64)
    ensures
        r == fx_add_s(a as int, b as int),
{
    let s: i128 = (a as i128) + (b as i128);
    if s > 9_223_372_036_854_775_807i128 {
        9_223_372_036_854_775_807i64
    } else if s < -9_223_372_036_854_775_807i128 {
        -9_223_372_036_854_775_807i64
    } else {
        s as i64
    }
}

/// Saturating difference.
pub fn fx_sub(a: i64, b: i64) -> (r: i64)
    ensures
        r == fx_sub_s(a as int, b as int),
{
    let s: i128 = (a as i128) - (b as i128);
    if s > 9_223_372_036_854_775_807i128 {
        9_223_372_036_854_775_807i64
    } else if s < -9_223_372_036_854_775_807i128 {
        -9_223_372_036_854_775_807i64
    } else {
        s as i64
    }
}

/// Saturating negation.
pub fn fx_neg(a: i64) -> (r: i64)
    ensures
        r == sat64(-(a as int)),
{
    let s: i128 = -(a as i128);
    if s > 9_223_372_036_854_775_807i128 {
        9_223_372_036_854_775_807i64
    } else {
        s as i64
    }
}

/// Saturating magnitude.
pub fn fx_abs(a: i64) -> (r: i64)
    ensures
        r == sat64(iabs(a as int)),
{
    let s: i128 = if a < 0 { -(a as i128) } else { a as i128 };
    if s > 9_223_372_036_854_775_807i128 {
        9_223_372_036_854_775_807i64
    } else {
        s as i64
    }
}

/// Larger of two scalars.
pub fn fx_max(a: i64, b: i64) -> (r: i64)
    ensures
        r == (if a >= b { a as int } else { b as int }),
{
    if a >= b { a } else { b }
}

/// Smaller of two scalars.
pub fn fx_min(a: i64, b: i64) -> (r: i64)
    ensures
        r == (if a <= b { a as int } else { b as int }),
{
    if a <= b { a } else { b }
}

/// Exact value of clamping into `[lo, hi]`.
pub open spec fn clamp_s(x: int, lo: int, hi: int) -> int {
    if x < lo { lo } else if x > hi { hi } else { x }
}

/// Clamp a scalar into `[lo, hi]`.
pub fn fx_clamp(x: i64, lo: i64, hi: i64) -> (r: i64)
    requires
        lo <= hi,
    ensures
        r == clamp_s(x as int, lo as int, hi as int),
{
    if x < lo { lo } else if x > hi { hi } else { x }
}

/// The truncated square root as a value: zero for non-positive inputs,
/// else the unique non-negative `r` with `r^2 <= x * FX_ONE < (r + 1)^2`.
pub open spec fn fx_sqrt_s(x: int) -> int {
    if x <= 0 {
        0
    } else {
        choose|r: int|
            r >= 0 && #[trigger] (r * r) <= x * (FX_ONE as int) && (r + 1) * (r + 1) > x * (
            FX_ONE as int)
    }
}

/// Truncated square roots are unique.
pub proof fn lemma_sqrt_unique(a: int, b: int, y: int) by (nonlinear_arith)
    requires
        a >= 0,
        b >= 0,
        a * a <= y,
        y < (a + 1) * (a + 1),
        b * b <= y,
        y < (b + 1) * (b + 1),
    ensures
        a == b,
{
}

/// Square root of a scalar, truncated to the fixed-point grid: the result
/// is the unique `r >= 0` with `r^2 <= x * FX_ONE < (r + 1)^2`. Non-positive
/// inputs yield zero.
pub fn fx_sqrt(x: i64) -> (r: i64)
    ensures
        r == fx_sqrt_s(x as int),
        r >= 0,
        x <= 0 ==> r == 0,
        x > 0 ==> (r as int) * (r as int) <= (x as int) * (FX_ONE as int)
            && (x as int) * (FX_ONE as int) < ((r + 1) as int) * ((r + 1) as int),
{
    if x <= 0 {
        return 0;
    }
    proof {
        assert((x as int) * (FX_ONE as int) < 0x8000_0000_0000_0000 * 1_000_000)
            by (nonlinear_arith)
            requires
                0 < (x as int) < 0x8000_0000_0000_0000;
    }
    let y: u128 = (x as u128) * 1_000_000u128;
    let mut lo: u128 = 0;
    let mut hi: u128 = 4_000_000_000_000u128;
    proof {
        assert(4_000_000_000_001u128 * 4_000_000_000_001u128 > y);
    }
    while lo < hi
        invariant
            lo <= hi <= 4_000_000_000_000u128,
            lo * lo <= y,
            (hi + 1) * (hi + 1) > y,
        decreases hi - lo,
    {
        let mid: u128 = lo + (hi - lo + 1) / 2;
        proof {
            assert(mid * mid <= 4_000_000_000_001u128 * 4_000_000_000_001u128)
                by (nonlinear_arith)
                requires
                    0 <= mid <= 4_000_000_000_001u128;
        }
        if mid * mid <= y {
            lo = mid;
        } else {
            hi = mid - 1;
        }
    }
    proof {
        let yy = (x as int) * (FX_ONE as int);
        assert(lo as int >= 0 && (lo as int) * (lo as int) <= yy && ((lo as int) + 1) * ((
        lo as int) + 1) > yy);
        assert(exists|r: int|
            r >= 0 && #[trigger] (r * r) <= yy && (r + 1) * (r + 1) > yy);
        lemma_sqrt_unique(fx_sqrt_s(x as int), lo as int, yy);
    }
    lo as i64
}

/// Exact value of the cubic hermite blend `t^2 * (3 - 2 t)` on the
/// fixed-point grid.
pub open spec fn smoothstep_s(t: int) -> int {
    fx_mul_s(fx_mul_s(t, t), fx_sub_s(3 * (FX_ONE as int), fx_add_s(t, t)))
}

/// Cubic hermite blend, used by move densification and keyframe easing.
pub fn fx_smoothstep(t: i64) -> (r: i64)
    ensures
        r == smoothstep_s(t as int),
{
    let t2: i64 = fx_mul(t, t);
    let back: i64 = fx_sub(3_000_000i64, fx_add(t, t));
    fx_mul(t2, back)
}

/// Exact value of the linear blend `a + (b - a) * t`.
pub open spec fn lerp_s(a: int, b: int, t: int) -> int {
    fx_add_s(a, fx_mul_s(fx_sub_s(b, a), t))
}

/// Linear blend between two scalars.
pub fn fx_lerp(a: i64, b: i64, t: i64) -> (r: i64)
    ensures
        r == lerp_s(a as int, b as int, t as int),
{
    fx_add(a, fx_mul(fx_sub(b, a), t))
}

/// The alternating series for `e^{-rem}`: consume terms `k` through 13,
/// continuing from the given term and accumulator.
pub open spec fn exp_series_s(rem: int, k: int, term: int, acc: int) -> int
    decreases 14 - k,
{
    if k < 1 || k > 13 {
        acc
    } else {
        let term2 = sat64(tdiv(fx_mul_s(term, rem), k));
        let acc2 = if k % 2 == 1 {
            fx_sub_s(acc, term2)
        } else {
            fx_add_s(acc, term2)
        };
        exp_series_s(rem, k + 1, term2, acc2)
    }
}

/// Halve a value `q` times, truncating.
pub open spec fn halved_s(v: int, q: int) -> int
    decreases q,
{
    if q <= 0 {
        v
    } else {
        halved_s(v / 2, q - 1)
    }
}

/// The value `fx_exp_neg` computes: one at zero, zero from 14 on, else
/// the clamped 13-term series for `e^{-rem}` scaled down by `2^q`, where
/// `x = q ln 2 + rem`.
pub open spec fn exp_neg_s(x: int) -> int {
    if x == 0 {
        FX_ONE as int
    } else if x >= 14_000_000 {
        0
    } else {
        let q = x / 693_147;
        let rem = x % 693_147;
        let series = exp_series_s(rem, 1, FX_ONE as int, FX_ONE as int);
        halved_s(clamp_s(series, 0, FX_ONE as int), q)
    }
}

/// `e^{-x}` for `x >= 0`, to fixed-point precision: split `x` on the
/// fixed-point logarithm of two, run the alternating series on the
/// remainder, and halve per whole multiple.
pub fn fx_exp_neg(x: i64) -> (r: i64)
    requires
        x >= 0,
    ensures
        r == exp_neg_s(x as int),
        0 <= r <= FX_ONE,
        x == 0 ==> r == FX_ONE,
        x >= 14_000_000 ==> r == 0,
{
    if x == 0 {
        return FX_ONE;
    }
    if x >= 14_000_000i64 {
        return 0;
    }
    // Split x = q * ln 2 + rem with rem in [0, ln 2), then halve q times.
    let xu: u64 = x as u64;
    let q: u64 = xu / 693_147u64;
    let rem: i64 = (xu % 693_147u64) as i64;
    // Alternating series for e^{-rem}; terms shrink since rem < 1.
    let mut term: i64 = FX_ONE;
    let mut acc: i64 = FX_ONE;
    let mut k: i64 = 1;
    while k <= 13
        invariant
            1 <= k <= 14,
            0 <= rem < 1_000_000,
            exp_series_s(rem as int, k as int, term as int, acc as int) == exp_series_s(
                rem as int,
                1,
                FX_ONE as int,
                FX_ONE as int,
            ),
        decreases 14 - k,
    {
        term = fx_divi(fx_mul(term, rem), k);
        if k % 2 == 1 {
            acc = fx_sub(acc, term);
        } else {
            acc = fx_add(acc, term);
        }
        k = k + 1;
    }
    let clamped: i64 = fx_clamp(acc, 0, FX_ONE);
    let mut v: u64 = clamped as u64;
    let mut i: u64 = 0;
    proof {
        assert(q < 21) by {
            assert(xu / 693_147u64 < 21);
        }
    }
    while i < q
        invariant
            v <= 1_000_000,
            i <= q,
            halved_s(v as int, q - i) == halved_s(clamped as int, q as int),
        decreases q - i,
    {
        v = v / 2;
        i = i + 1;
    }
    v as i64
}

/// One full turn, to fixed-point precision.
pub const FX_TWO_PI: i64 = 6_283_185;

/// Half a turn, to fixed-point precision.
pub const FX_PI: i64 = 3_141_593;

/// A quarter turn, to fixed-point precision.
pub const FX_HALF_PI: i64 = 1_570_796;

/// The alternating cosine series on a quadrant: consume terms `k`
/// through 6, continuing from the given term and accumulator.
pub open spec fn cos_series_s(z2: int, k: int, term: int, acc: int) -> int
    decreases 7 - k,
{
    if k < 1 || k > 6 {
        acc
    } else {
        let term2 = sat64(tdiv(fx_mul_s(term, z2), (2 * k - 1) * (2 * k)));
        let acc2 = if k % 2 == 1 {
            fx_sub_s(acc, term2)
        } else {
            fx_add_s(acc, term2)
        };
        cos_series_s(z2, k + 1, term2, acc2)
    }
}

/// The alternating sine series on a quadrant, with its odd divisors.
pub open spec fn sin_series_s(z2: int, k: int, term: int, acc: int) -> int
    decreases 7 - k,
{
    if k < 1 || k > 6 {
        acc
    } else {
        let term2 = sat64(tdiv(fx_mul_s(term, z2), (2 * k) * (2 * k + 1)));
        let acc2 = if k % 2 == 1 {
            fx_sub_s(acc, term2)
        } else {
            fx_add_s(acc, term2)
        };
        sin_series_s(z2, k + 1, term2, acc2)
    }
}

/// Cosine on the first quadrant as a value.
pub open spec fn cos_quadrant_s(z: int) -> int {
    if z == 0 {
        FX_ONE as int
    } else {
        clamp_s(
            cos_series_s(fx_mul_s(z, z), 1, FX_ONE as int, FX_ONE as int),
            -(FX_ONE as int),
            FX_ONE as int,
        )
    }
}

/// Sine on the first quadrant as a value.
pub open spec fn sin_quadrant_s(z: int) -> int {
    if z == 0 {
        0
    } else {
        clamp_s(sin_series_s(fx_mul_s(z, z), 1, z, z), -(FX_ONE as int), FX_ONE as int)
    }
}

/// Magnitude of an angle modulo one turn.
pub open spec fn angle_reduce_s(x: int) -> int {
    iabs(x) % (FX_TWO_PI as int)
}

/// The value `fx_cos` computes: quadrant reduction over the series.
pub open spec fn cos_s(x: int) -> int {
    let m = angle_reduce_s(x);
    if m < FX_HALF_PI as int {
        cos_quadrant_s(m)
    } else if m < FX_PI as int {
        sat64(-cos_quadrant_s(FX_PI as int - m))
    } else if m < 4_712_389 {
        sat64(-cos_quadrant_s(m - FX_PI as int))
    } else {
        cos_quadrant_s(FX_TWO_PI as int - m)
    }
}

/// The value `fx_sin` computes: quadrant reduction over the series, with
/// the sign of the input.
pub open spec fn sin_s(x: int) -> int {
    let m = angle_reduce_s(x);
    let s = if m < FX_HALF_PI as int {
        sin_quadrant_s(m)
    } else if m < FX_PI as int {
        sin_quadrant_s(FX_PI as int - m)
    } else if m < 4_712_389 {
        sat64(-sin_quadrant_s(m - FX_PI as int))
    } else {
        sat64(-sin_quadrant_s(FX_TWO_PI as int - m))
    };
    if x < 0 {
        sat64(-s)
    } else {
        s
    }
}

/// Cosine series on the first quadrant; input in `[0, FX_HALF_PI + 1]`.
fn cos_quadrant(z: i64) -> (r: i64)
    requires
        0 <= z <= 1_570_797,
    ensures
        r == cos_quadrant_s(z as int),
        -FX_ONE <= r <= FX_ONE,
        z == 0 ==> r == FX_ONE,
{
    if z == 0 {
        return FX_ONE;
    }
    let z2: i64 = fx_mul(z, z);
    let mut term: i64 = FX_ONE;
    let mut acc: i64 = FX_ONE;
    let mut k: i64 = 1;
    while k <= 6
        invariant
            1 <= k <= 7,
            cos_series_s(z2 as int, k as int, term as int, acc as int) == cos_series_s(
                z2 as int,
                1,
                FX_ONE as int,
                FX_ONE as int,
            ),
        decreases 7 - k,
    {
        proof {
            assert(1 <= (2 * k - 1) * (2 * k) <= 200) by (nonlinear_arith)
                requires
                    1 <= k <= 6;
        }
        term = fx_divi(fx_mul(term, z2), (2 * k - 1) * (2 * k));
        if k % 2 == 1 {
            acc = fx_sub(acc, term);
        } else {
            acc = fx_add(acc, term);
        }
        k = k + 1;
    }
    fx_clamp(acc, -1_000_000i64, FX_ONE)
}

/// Sine series on the first quadrant; input in `[0, FX_HALF_PI + 1]`.
fn sin_quadrant(z: i64) -> (r: i64)
    requires
        0 <= z <= 1_570_797,
    ensures
        r == sin_quadrant_s(z as int),
        -FX_ONE <= r <= FX_ONE,
        z == 0 ==> r == 0,
{
    if z == 0 {
        return 0;
    }
    let z2: i64 = fx_mul(z, z);
    let mut term: i64 = z;
    let mut acc: i64 = z;
    let mut k: i64 = 1;
    while k <= 6
        invariant
            1 <= k <= 7,
            sin_series_s(z2 as int, k as int, term as int, acc as int) == sin_series_s(
                z2 as int,
                1,
                z as int,
                z as int,
            ),
        decreases 7 - k,
    {
        proof {
            assert(1 <= (2 * k) * (2 * k + 1) <= 200) by (nonlinear_arith)
                requires
                    1 <= k <= 6;
        }
        term = fx_divi(fx_mul(term, z2), (2 * k) * (2 * k + 1));
        if k % 2 == 1 {
            acc = fx_sub(acc, term);
        } else {
            acc = fx_add(acc, term);
        }
        k = k + 1;
    }
    fx_clamp(acc, -1_000_000i64, FX_ONE)
}

/// Reduce the magnitude of an angle modulo one turn.
fn angle_reduce(x: i64) -> (m: i64)
    ensures
        m == angle_reduce_s(x as int),
        0 <= m < FX_TWO_PI,
        x == 0 ==> m == 0,
{
    let ax: u64 = if x >= 0 { x as u64 } else { (-(x as i128)) as u64 };
    (ax % 6_283_185u64) as i64
}

/// Cosine of an angle in radians: quadrant reduction over the six-term
/// series.
pub fn fx_cos(x: i64) -> (r: i64)
    ensures
        r == cos_s(x as int),
        -FX_ONE <= r <= FX_ONE,
        x == 0 ==> r == FX_ONE,
{
    let m: i64 = angle_reduce(x);
    if m < 1_570_796i64 {
        cos_quadrant(m)
    } else if m < 3_141_593i64 {
        fx_neg(cos_quadrant(3_141_593i64 - m))
    } else if m < 4_712_389i64 {
        fx_neg(cos_quadrant(m - 3_141_593i64))
    } else {
        cos_quadrant(6_283_185i64 - m)
    }
}

/// Sine of an angle in radians: quadrant reduction over the six-term
/// series, carrying the input's sign.
pub fn fx_sin(x: i64) -> (r: i64)
    ensures
        r == sin_s(x as int),
        -FX_ONE <= r <= FX_ONE,
        x == 0 ==> r == 0,
{
    let neg_input: bool = x < 0;
    let m: i64 = angle_reduce(x);
    let s: i64 = if m < 1_570_796i64 {
        sin_quadrant(m)
    } else if m < 3_141_593i64 {
        sin_quadrant(3_141_593i64 - m)
    } else if m < 4_712_389i64 {
        fx_neg(sin_quadrant(m - 3_141_593i64))
    } else {
        fx_neg(sin_quadrant(6_283_185i64 - m))
    };
    if neg_input {
        fx_neg(s)
    } else {
        s
    }
}

} // verus!
