//! Small integer helpers the simulation is built on: truncating and
//! rounding-away division by a positive divisor, saturation into a symmetric
//! interval, and an integer square root.

use vstd::prelude::*;

verus! {

/// Absolute value of a mathematical integer.
pub open spec fn abs_i(v: int) -> int {
    if v >= 0 {
        v
    } else {
        -v
    }
}

/// Quotient of `a` by positive `b`, rounded toward zero.
pub open spec fn div_q(a: int, b: int) -> int
    recommends
        b >= 1,
{
    if a >= 0 {
        a / b
    } else {
        -((-a) / b)
    }
}

/// Quotient of `a` by positive `b`, rounded away from zero.
pub open spec fn div_away(a: int, b: int) -> int
    recommends
        b >= 1,
{
    if a >= 0 {
        (a + b - 1) / b
    } else {
        -(((-a) + b - 1) / b)
    }
}

/// `v` saturated into `[-bound, bound]`.
pub open spec fn sat(v: int, bound: int) -> int
    recommends
        bound >= 0,
{
    if v > bound {
        bound
    } else if v < -bound {
        -bound
    } else {
        v
    }
}

/// Integer square root: the largest `r` with `r * r <= n`.
pub open spec fn isqrt(n: nat) -> nat
    decreases n,
{
    if n == 0 {
        0
    } else {
        let r = isqrt((n - 1) as nat);
        if (r + 1) * (r + 1) <= n {
            r + 1
        } else {
            r
        }
    }
}

pub proof fn lemma_isqrt_bounds(n: nat)
    ensures
        isqrt(n) * isqrt(n) <= n,
        n < (isqrt(n) + 1) * (isqrt(n) + 1),
    decreases n,
{
    let r = isqrt(n);
    if n == 0 {
        assert(r == 0);
        assert(n < (r + 1) * (r + 1)) by (nonlinear_arith)
            requires
                n == 0 && r == 0,
        ;
    } else {
        let p = isqrt((n - 1) as nat);
        lemma_isqrt_bounds((n - 1) as nat);
        if (p + 1) * (p + 1) <= n {
            assert(r == p + 1);
            assert(n <= (p + 1) * (p + 1));
            assert((p + 1) * (p + 1) < (p + 2) * (p + 2)) by (nonlinear_arith)
                requires
                    p >= 0,
            ;
            assert((r + 1) * (r + 1) == (p + 2) * (p + 2));
        } else {
            assert(r == p);
        }
    }
}

pub proof fn lemma_isqrt_unique(n: nat, s: nat)
    requires
        s * s <= n,
        n < (s + 1) * (s + 1),
    ensures
        s == isqrt(n),
{
    lemma_isqrt_bounds(n);
    let r = isqrt(n);
    if s < r {
        assert((s + 1) * (s + 1) <= r * r) by (nonlinear_arith)
            requires
                s + 1 <= r,
                0 <= s,
        ;
    }
    if r < s {
        assert((r + 1) * (r + 1) <= s * s) by (nonlinear_arith)
            requires
                r + 1 <= s,
                0 <= r,
        ;
    }
}

/// A value whose square is below `(s + 1)^2` is at most `s` in magnitude.
pub proof fn lemma_component_bound(a: int, n: int, s: int)
    requires
        0 <= s,
        a * a <= n,
        n < (s + 1) * (s + 1),
    ensures
        abs_i(a) <= s,
{
    if abs_i(a) > s {
        assert((s + 1) * (s + 1) <= a * a) by (nonlinear_arith)
            requires
                0 <= s,
                (a >= s + 1 || -a >= s + 1),
        ;
    }
}

/// Magnitude of a product is bounded by the product of magnitude bounds.
pub proof fn lemma_mul_abs_bound(a: int, b: int, ca: int, cb: int)
    requires
        abs_i(a) <= ca,
        abs_i(b) <= cb,
    ensures
        abs_i(a * b) <= ca * cb,
{
    assert(abs_i(a * b) <= ca * cb) by (nonlinear_arith)
        requires
            -ca <= a <= ca,
            -cb <= b <= cb,
    ;
}

/// Truncating division by a positive divisor never grows the magnitude.
pub proof fn lemma_div_q_abs_le(a: int, b: int)
    requires
        b >= 1,
    ensures
        abs_i(div_q(a, b)) <= abs_i(a),
{
    let m = abs_i(a);
    assert(0 <= m / b <= m) by (nonlinear_arith)
        requires
            b >= 1,
            m >= 0,
    ;
}

/// If `|a| <= b * c`, the truncated quotient of `a` by `b` is at most `c`.
pub proof fn lemma_div_q_bound(a: int, b: int, c: int)
    requires
        b >= 1,
        c >= 0,
        abs_i(a) <= b * c,
    ensures
        abs_i(div_q(a, b)) <= c,
{
    let m = abs_i(a);
    assert(0 <= m / b <= c) by (nonlinear_arith)
        requires
            b >= 1,
            c >= 0,
            0 <= m <= b * c,
    ;
}

/// Executable truncating division by a positive divisor.
pub fn div_q_e(a: i64, b: i64) -> (r: i64)
    requires
        1 <= b,
        i64::MIN < a,
    ensures
        r as int == div_q(a as int, b as int),
        abs_i(r as int) <= abs_i(a as int),
{
    proof {
        lemma_div_q_abs_le(a as int, b as int);
    }
    if a >= 0 {
        let q: u64 = (a as u64) / (b as u64);
        q as i64
    } else {
        let neg: i64 = -a;
        let m: u64 = (neg as u64) / (b as u64);
        -(m as i64)
    }
}

/// Executable division by a positive divisor, rounded away from zero.
pub fn div_away_e(a: i64, b: i64) -> (r: i64)
    requires
        1 <= b <= 0x1000_0000_0000,
        abs_i(a as int) <= 0x1000_0000_0000_0000,
    ensures
        r as int == div_away(a as int, b as int),
        abs_i(r as int) <= abs_i(a as int) + 1,
{
    proof {
        let m = abs_i(a as int);
        assert(0 <= (m + b - 1) / (b as int) <= m + 1) by (nonlinear_arith)
            requires
                1 <= b,
                m >= 0,
        ;
    }
    if a >= 0 {
        let q: u64 = ((a as u64) + (b as u64) - 1) / (b as u64);
        q as i64
    } else {
        let neg: i64 = -a;
        let m: u64 = ((neg as u64) + (b as u64) - 1) / (b as u64);
        -(m as i64)
    }
}

/// Executable saturation into `[-bound, bound]`.
pub fn sat_e(v: i64, bound: i64) -> (r: i64)
    requires
        0 <= bound,
    ensures
        r as int == sat(v as int, bound as int),
{
    if v > bound {
        bound
    } else if v < -bound {
        -bound
    } else {
        v
    }
}

/// Executable integer square root by bisection.
pub fn isqrt_e(n: u64) -> (r: u64)
    requires
        n <= 2_300_000_000_000_000_000,
    ensures
        r as nat == isqrt(n as nat),
        r * r <= n,
        n < (r + 1) * (r + 1),
        r <= 1_600_000_000,
{
    let mut lo: u64 = 0;
    let mut hi: u64 = 1_600_000_000;
    assert(n < hi * hi);
    while hi - lo > 1
        invariant
            0 <= lo < hi <= 1_600_000_000,
            lo * lo <= n,
            n < hi * hi,
        decreases hi - lo,
    {
        let mid: u64 = lo + (hi - lo) / 2;
        proof {
            assert((mid as int) * (mid as int) <= 2_560_000_000_000_000_000int) by (nonlinear_arith)
                requires
                    0 <= mid as int <= 1_600_000_000int,
            ;
        }
        if mid * mid <= n {
            lo = mid;
        } else {
            hi = mid;
        }
    }
    proof {
        lemma_isqrt_unique(n as nat, lo as nat);
    }
    lo
}

} // verus!
