//! Fixed-point conventions shared by every subsystem.
//!
//! The simulation never touches floating point. A scalar is an integer count
//! of millionths of its unit: positions are micrometres, velocities are
//! micrometres per second, angles are microradians, display coordinates are
//! millionths of a pixel. Tank and battery levels are finer still, counted in
//! billionths, so that every fill and drain rate is a whole number of counts
//! per microsecond. Elapsed time is a `u32` of microseconds.
use vstd::math::{max, min};
use vstd::prelude::*;

verus! {

/// The value 1.0 in millionths.
pub const MICRO: i64 = 1_000_000;

/// The value 1.0 in billionths.
pub const NANO: u64 = 1_000_000_000;

/// The fastest rate, in counts per microsecond, at which a level may rise or
/// fall.
pub const RATE_LIMIT: u64 = 1_000_000;

/// A bound on the world: a thousand million metres, in micrometres. Every
/// operation of the simulation can be served while positions, velocities
/// and angles stay within it.
pub const WORLD_LIMIT: i64 = 1_000_000_000_000_000;

/// Whether a mathematical integer is representable as an `i64`.
pub open spec fn fits_i64(v: int) -> bool {
    i64::MIN <= v <= i64::MAX
}

/// Division that rounds toward zero, for a positive divisor. This is the one
/// rounding rule used whenever a product of two fixed-point values is scaled
/// back down.
pub open spec fn quot(a: int, b: int) -> int {
    if a >= 0 {
        a / b
    } else {
        -((-a) / b)
    }
}

/// The magnitude of an integer.
pub open spec fn magnitude(v: int) -> int {
    if v < 0 {
        -v
    } else {
        v
    }
}

/// Computes the magnitude of a signed value; unlike negation it cannot
/// overflow.
pub fn abs_u64(v: i64) -> (m: u64)
    ensures
        m == magnitude(v as int),
{
    if v >= 0 {
        v as u64
    } else {
        (-(v as i128)) as u64
    }
}

/// Rounding toward zero never increases the magnitude, and it keeps the sign.
pub proof fn lemma_quot_bounds(a: int, b: int)
    requires
        b > 0,
    ensures
        magnitude(quot(a, b)) * b <= magnitude(a),
        magnitude(a) < (magnitude(quot(a, b)) + 1) * b,
        a >= 0 ==> quot(a, b) >= 0,
        a <= 0 ==> quot(a, b) <= 0,
        quot(-a, b) == -quot(a, b),
{
    let m = magnitude(a);
    assert(m == b * (m / b) + m % b && 0 <= m % b < b) by (nonlinear_arith)
        requires
            b > 0,
    ;
    assert((m / b) * b == b * (m / b)) by (nonlinear_arith);
    assert((m / b + 1) * b == b * (m / b) + b) by (nonlinear_arith);
    assert(m / b >= 0) by (nonlinear_arith)
        requires
            b > 0,
            m >= 0,
    ;
}

/// If the magnitude of the numerator is at most `k` divisors, the quotient's
/// magnitude is at most `k`.
pub proof fn lemma_quot_le(a: int, b: int, k: int)
    requires
        b > 0,
        k >= 0,
        magnitude(a) <= k * b,
    ensures
        magnitude(quot(a, b)) <= k,
{
    lemma_quot_bounds(a, b);
    let q = magnitude(quot(a, b));
    assert(q <= k) by (nonlinear_arith)
        requires
            q * b <= k * b,
            b > 0,
    ;
}

/// `level + rate * dt`, stopped at `cap`: a level that rises at `rate` counts
/// per microsecond for `dt` microseconds.
pub fn raised(level: u64, rate: u64, dt: u32, cap: u64) -> (r: u64)
    requires
        level <= cap,
        rate <= RATE_LIMIT,
    ensures
        r == min(cap as int, level + rate * dt),
{
    assert(rate * dt <= RATE_LIMIT * 0xffff_ffff) by (nonlinear_arith)
        requires
            rate <= RATE_LIMIT,
            dt <= 0xffff_ffff,
    ;
    let gain: u64 = rate * (dt as u64);
    if gain >= cap - level {
        cap
    } else {
        level + gain
    }
}

/// `level - rate * dt`, stopped at zero: a level that falls at `rate` counts
/// per microsecond for `dt` microseconds.
pub fn lowered(level: u64, rate: u64, dt: u32) -> (r: u64)
    requires
        rate <= RATE_LIMIT,
    ensures
        r == max(0, level - rate * dt),
{
    assert(rate * dt <= RATE_LIMIT * 0xffff_ffff) by (nonlinear_arith)
        requires
            rate <= RATE_LIMIT,
            dt <= 0xffff_ffff,
    ;
    let loss: u64 = rate * (dt as u64);
    if loss >= level {
        0
    } else {
        level - loss
    }
}

/// Whether `r` is the integer square root of `n`: its square does not
/// exceed `n`, and the next square does.
pub open spec fn is_sqrt_floor(n: nat, r: nat) -> bool {
    r * r <= n < (r + 1) * (r + 1)
}

/// The integer square root of `n`.
pub open spec fn sqrt_floor(n: nat) -> nat {
    choose|r: nat| is_sqrt_floor(n, r)
}

/// A root found by counting up from zero.
spec fn counted_root(n: nat) -> nat
    decreases n,
{
    if n == 0 {
        0
    } else {
        let r = counted_root((n - 1) as nat);
        if (r + 1) * (r + 1) <= n {
            r + 1
        } else {
            r
        }
    }
}

proof fn lemma_counted_root(n: nat)
    ensures
        counted_root(n) * counted_root(n) <= n < (counted_root(n) + 1) * (counted_root(n) + 1),
    decreases n,
{
    let s = counted_root(n);
    if n > 0 {
        lemma_counted_root((n - 1) as nat);
        let r = counted_root((n - 1) as nat);
        assert(s * s <= n < (s + 1) * (s + 1)) by (nonlinear_arith)
            requires
                r * r <= n - 1 < (r + 1) * (r + 1),
                s == if (r + 1) * (r + 1) <= n { r + 1 } else { r },
        ;
    } else {
        assert(s * s <= n < (s + 1) * (s + 1)) by (nonlinear_arith)
            requires
                s == 0,
                n == 0,
        ;
    }
}

/// Every natural number has an integer square root.
pub proof fn lemma_sqrt_floor_brackets(n: nat)
    ensures
        sqrt_floor(n) * sqrt_floor(n) <= n < (sqrt_floor(n) + 1) * (sqrt_floor(n) + 1),
{
    lemma_counted_root(n);
    assert(is_sqrt_floor(n, counted_root(n)));
}

/// Only one natural number is bracketed that way.
pub proof fn lemma_sqrt_floor_unique(n: nat, r: nat)
    requires
        r * r <= n < (r + 1) * (r + 1),
    ensures
        r == sqrt_floor(n),
{
    lemma_sqrt_floor_brackets(n);
    let s = sqrt_floor(n);
    assert(r == s) by (nonlinear_arith)
        requires
            r * r <= n < (r + 1) * (r + 1),
            s * s <= n < (s + 1) * (s + 1),
    ;
}

/// A number whose square is at most `n` is at most the square root of `n`.
pub proof fn lemma_sqrt_floor_dominates(n: nat, c: nat)
    requires
        c * c <= n,
    ensures
        c <= sqrt_floor(n),
{
    lemma_sqrt_floor_brackets(n);
    let s = sqrt_floor(n);
    assert(c <= s) by (nonlinear_arith)
        requires
            c * c <= n,
            n < (s + 1) * (s + 1),
    ;
}

/// Computes the integer square root by bisection.
pub fn isqrt(n: u128) -> (r: u64)
    ensures
        r == sqrt_floor(n as nat),
        r * r <= n < (r + 1) * (r + 1),
{
    let mut lo: u128 = 0;
    let mut hi: u128 = 0x1_0000_0000_0000_0000;
    assert(hi * hi > n) by (nonlinear_arith)
        requires
            hi == 0x1_0000_0000_0000_0000,
            n <= u128::MAX,
    ;
    while hi - lo > 1
        invariant
            lo < hi <= 0x1_0000_0000_0000_0000,
            lo * lo <= n < hi * hi,
        decreases hi - lo,
    {
        let mid: u128 = lo + (hi - lo) / 2;
        assert(mid * mid <= 0xffff_ffff_ffff_ffff * 0xffff_ffff_ffff_ffff) by (nonlinear_arith)
            requires
                mid <= 0xffff_ffff_ffff_ffff,
        ;
        if mid * mid <= n {
            lo = mid;
        } else {
            hi = mid;
        }
    }
    proof {
        lemma_sqrt_floor_unique(n as nat, lo as nat);
    }
    lo as u64
}

} // verus!
