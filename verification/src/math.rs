//! Integer helpers shared by the engine: truncating division (the engine's
//! divisions all round toward zero, as the components are signed) and integer
//! square roots, together with the lemmas that bound scaled vectors.

use vstd::prelude::*;
use vstd::arithmetic::div_mod::*;
use vstd::arithmetic::mul::*;

verus! {

/// Division rounding toward zero, the semantics of the executable `tdiv`.
pub open spec fn spec_tdiv(a: int, b: int) -> int {
    if a >= 0 {
        a / b
    } else {
        -((-a) / b)
    }
}

/// Floor of the square root, defined by counting up; `lemma_isqrt_bounds`
/// gives the usual characterisation.
pub open spec fn spec_isqrt(n: int) -> int
    decreases n,
{
    if n <= 0 {
        0
    } else {
        let r = spec_isqrt(n - 1);
        if (r + 1) * (r + 1) <= n {
            r + 1
        } else {
            r
        }
    }
}

/// Ceiling of the square root: the least `s` with `n <= s * s`.
pub open spec fn spec_sqrt_ceil(n: int) -> int {
    if spec_isqrt(n) * spec_isqrt(n) == n {
        spec_isqrt(n)
    } else {
        spec_isqrt(n) + 1
    }
}

pub proof fn lemma_isqrt_bounds(n: int)
    requires
        n >= 0,
    ensures
        0 <= spec_isqrt(n),
        spec_isqrt(n) * spec_isqrt(n) <= n,
        n < (spec_isqrt(n) + 1) * (spec_isqrt(n) + 1),
    decreases n,
{
    if n == 0 {
    } else {
        lemma_isqrt_bounds(n - 1);
        let r = spec_isqrt(n - 1);
        if (r + 1) * (r + 1) <= n {
            assert((r + 2) * (r + 2) > n) by (nonlinear_arith)
                requires
                    r >= 0,
                    n - 1 < (r + 1) * (r + 1),
            ;
        }
    }
}

pub proof fn lemma_isqrt_unique(n: int, r: int)
    requires
        n >= 0,
        r >= 0,
        r * r <= n,
        n < (r + 1) * (r + 1),
    ensures
        r == spec_isqrt(n),
{
    lemma_isqrt_bounds(n);
    let s = spec_isqrt(n);
    if r < s {
        assert((r + 1) * (r + 1) <= s * s) by (nonlinear_arith)
            requires
                0 <= r,
                r + 1 <= s,
        ;
    }
    if s < r {
        assert((s + 1) * (s + 1) <= r * r) by (nonlinear_arith)
            requires
                0 <= s,
                s + 1 <= r,
        ;
    }
}

pub proof fn lemma_sqrt_ceil_bounds(n: int)
    requires
        n >= 0,
    ensures
        0 <= spec_sqrt_ceil(n),
        n <= spec_sqrt_ceil(n) * spec_sqrt_ceil(n),
        spec_sqrt_ceil(n) <= spec_isqrt(n) + 1,
        n >= 1 ==> 1 <= spec_sqrt_ceil(n) && (spec_sqrt_ceil(n) - 1) * (spec_sqrt_ceil(n) - 1)
            < n,
{
    lemma_isqrt_bounds(n);
    if n >= 1 {
        let f = spec_isqrt(n);
        if f * f == n {
            assert(f >= 1) by (nonlinear_arith)
                requires
                    f >= 0,
                    f * f >= 1,
            ;
            assert((f - 1) * (f - 1) < f * f) by (nonlinear_arith)
                requires
                    f >= 1,
            ;
        }
    }
}

/// Quotient of two machine integers, rounding toward zero.
pub fn tdiv(a: i64, b: i64) -> (q: i64)
    requires
        b > 0,
        a > i64::MIN,
    ensures
        q == spec_tdiv(a as int, b as int),
        a >= 0 ==> 0 <= q <= a,
        a < 0 ==> a <= q <= 0,
{
    if a >= 0 {
        let q = (a as u64) / (b as u64);
        proof {
            lemma_div_is_ordered_by_denominator(a as int, 1, b as int);
            lemma_div_basics(a as int);
        }
        q as i64
    } else {
        let n = -a;
        let q = (n as u64) / (b as u64);
        proof {
            lemma_div_is_ordered_by_denominator(n as int, 1, b as int);
            lemma_div_basics(n as int);
            lemma_div_pos_is_pos(n as int, b as int);
        }
        -(q as i64)
    }
}

/// Floor of the square root of a machine integer, by binary search.
pub fn isqrt(n: u64) -> (r: u64)
    ensures
        r * r <= n < (r + 1) * (r + 1),
        r == spec_isqrt(n as int),
        r <= 0xFFFF_FFFF,
{
    let mut lo: u64 = 0;
    let mut hi: u64 = 0xFFFF_FFFF;
    proof {
        assert((0xFFFF_FFFFu64 + 1) * (0xFFFF_FFFFu64 + 1) > u64::MAX as int) by (nonlinear_arith);
    }
    while lo < hi
        invariant
            lo <= hi <= 0xFFFF_FFFF,
            lo * lo <= n,
            n < (hi + 1) * (hi + 1),
        decreases hi - lo,
    {
        let mid = lo + (hi - lo + 1) / 2;
        proof {
            assert(lo < mid <= hi);
            assert(mid * mid <= 0xFFFF_FFFFu64 * 0xFFFF_FFFFu64) by (nonlinear_arith)
                requires
                    0 <= mid <= 0xFFFF_FFFFu64,
            ;
        }
        if mid * mid <= n {
            lo = mid;
        } else {
            hi = mid - 1;
        }
    }
    proof {
        lemma_isqrt_unique(n as int, lo as int);
    }
    lo
}

/// Floor of the square root of a nonnegative `i64`.
pub fn isqrt_i64(n: i64) -> (r: i64)
    requires
        n >= 0,
    ensures
        r == spec_isqrt(n as int),
        0 <= r <= 0xFFFF_FFFF,
        r * r <= n < (r + 1) * (r + 1),
{
    proof {
        lemma_isqrt_bounds(n as int);
    }
    let r = isqrt(n as u64);
    proof {
        assert(n as u64 as int == n as int);
        lemma_isqrt_unique(n as int, r as int);
    }
    r as i64
}

/// Ceiling of the square root of a nonnegative `i64`.
pub fn sqrt_ceil(n: i64) -> (r: i64)
    requires
        n >= 0,
    ensures
        r == spec_sqrt_ceil(n as int),
        0 <= r <= 0x1_0000_0000,
        n <= r * r,
        n > 0 ==> r > 0,
{
    let f = isqrt_i64(n);
    proof {
        lemma_isqrt_bounds(n as int);
        if n > 0 && f == 0 {
            assert(f * f == 0) by (nonlinear_arith)
                requires
                    f == 0,
            ;
        }
    }
    if f * f == n {
        f
    } else {
        f + 1
    }
}

/// Scaling `x` by `m/s` with truncation cannot grow it past `m` in absolute
/// value, provided `x * x <= s * s`.
pub proof fn lemma_tdiv_scale_bound(x: int, m: int, s: int)
    requires
        s > 0,
        m >= 0,
        x * x <= s * s,
    ensures
        spec_tdiv(x * m, s) * spec_tdiv(x * m, s) * (s * s) <= (x * x) * (m * m),
{
    if x >= 0 {
        let q = (x * m) / s;
        lemma_mul_nonnegative(x, m);
        lemma_div_pos_is_pos(x * m, s);
        lemma_fundamental_div_mod(x * m, s);
        assert(q * s <= x * m);
        assert(q * q * (s * s) <= (x * x) * (m * m)) by (nonlinear_arith)
            requires
                q >= 0,
                s > 0,
                q * s <= x * m,
                x >= 0,
                m >= 0,
        ;
        assert(spec_tdiv(x * m, s) == q) by {
            lemma_mul_nonnegative(x, m);
        }
    } else {
        let y = -x;
        let q = (y * m) / s;
        lemma_mul_nonnegative(y, m);
        lemma_div_pos_is_pos(y * m, s);
        lemma_fundamental_div_mod(y * m, s);
        assert(q * s <= y * m);
        assert(q * q * (s * s) <= (y * y) * (m * m)) by (nonlinear_arith)
            requires
                q >= 0,
                s > 0,
                q * s <= y * m,
                y >= 0,
                m >= 0,
        ;
        assert(x * m == -(y * m)) by (nonlinear_arith)
            requires
                y == -x,
        ;
        assert(spec_tdiv(x * m, s) == -q);
        assert((-q) * (-q) == q * q) by (nonlinear_arith);
        assert((y * y) == (x * x)) by (nonlinear_arith)
            requires
                y == -x,
        ;
    }
}

/// The clamping identity: scaling a vector of squared magnitude at most
/// `s * s` by `m / s`, componentwise and truncating, yields a vector of
/// squared magnitude at most `m * m`.
pub proof fn lemma_scaled_mag_bound(x: int, y: int, m: int, s: int)
    requires
        s > 0,
        m >= 0,
        x * x + y * y <= s * s,
    ensures
        spec_tdiv(x * m, s) * spec_tdiv(x * m, s) + spec_tdiv(y * m, s) * spec_tdiv(y * m, s)
            <= m * m,
{
    let qx = spec_tdiv(x * m, s);
    let qy = spec_tdiv(y * m, s);
    assert(x * x >= 0) by (nonlinear_arith);
    assert(y * y >= 0) by (nonlinear_arith);
    assert(s * s > 0) by (nonlinear_arith)
        requires
            s > 0,
    ;
    lemma_tdiv_scale_bound(x, m, s);
    lemma_tdiv_scale_bound(y, m, s);
    assert((qx * qx + qy * qy) * (s * s) <= (x * x + y * y) * (m * m)) by (nonlinear_arith)
        requires
            qx * qx * (s * s) <= (x * x) * (m * m),
            qy * qy * (s * s) <= (y * y) * (m * m),
    ;
    assert((x * x + y * y) * (m * m) <= (s * s) * (m * m)) by (nonlinear_arith)
        requires
            x * x + y * y <= s * s,
            m * m >= 0,
    ;
    assert(qx * qx + qy * qy <= m * m) by (nonlinear_arith)
        requires
            (qx * qx + qy * qy) * (s * s) <= (s * s) * (m * m),
            s * s > 0,
    ;
}

/// A truncated quotient is bounded by the quotient of bounds: if
/// `d * d <= q` then `|d * k / q| <= k`.
pub proof fn lemma_inverse_weight_bound(d: int, k: int, q: int)
    requires
        q >= 1,
        k >= 0,
        d * d <= q,
    ensures
        -k <= spec_tdiv(d * k, q) <= k,
{
    if d >= 0 {
        assert(d <= q) by (nonlinear_arith)
            requires
                d >= 0,
                d * d <= q,
                q >= 1,
        ;
        lemma_mul_nonnegative(d, k);
        lemma_div_pos_is_pos(d * k, q);
        lemma_mul_inequality(d, q, k);
        lemma_div_is_ordered(d * k, q * k, q);
        lemma_div_multiples_vanish(k, q);
        assert(spec_tdiv(d * k, q) == (d * k) / q);
    } else {
        let e = -d;
        assert(e * e == d * d) by (nonlinear_arith)
            requires
                e == -d,
        ;
        assert(e <= q) by (nonlinear_arith)
            requires
                e >= 0,
                e * e <= q,
                q >= 1,
        ;
        lemma_mul_nonnegative(e, k);
        lemma_div_pos_is_pos(e * k, q);
        lemma_mul_inequality(e, q, k);
        lemma_div_is_ordered(e * k, q * k, q);
        lemma_div_multiples_vanish(k, q);
        assert(d * k == -(e * k)) by (nonlinear_arith)
            requires
                e == -d,
        ;
        assert(spec_tdiv(d * k, q) == -((e * k) / q));
    }
}

} // verus!
