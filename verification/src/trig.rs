//! Integer trigonometry on microradians.
//!
//! The sine is Bhaskara's rational approximation, which is exact at every
//! quarter turn and within 0.002 of the true sine everywhere else. The
//! two-argument arctangent uses a cubic fit on the first octant and mirrors
//! it into the other seven; it is exact on the axes and the diagonals and
//! within 0.002 radians everywhere else. Both are defined on all integers, so
//! a phase may grow without bound.
use vstd::prelude::*;
use crate::fixed::{MICRO, abs_u64, magnitude};

verus! {

/// A quarter turn, in microradians.
pub const QUARTER_TURN: i64 = 1_570_796;

/// Half a turn: two quarter turns exactly.
pub const HALF_TURN: i64 = 3_141_592;

/// A whole turn: four quarter turns exactly.
pub const FULL_TURN: i64 = 6_283_184;

/// An eighth of a turn.
pub const EIGHTH_TURN: i64 = 785_398;

/// The angle congruent to `a` in the half-open interval from zero to a whole
/// turn.
pub open spec fn normalized(a: int) -> int {
    a % (FULL_TURN as int)
}

/// The sine over the first half turn, for `0 <= x <= HALF_TURN`:
/// `16 x (pi - x) / (5 pi^2 - 4 x (pi - x))`.
#[verifier::opaque]
pub open spec fn arch(x: int) -> int {
    let p = x * (HALF_TURN - x);
    (16 * p * MICRO) / (5 * HALF_TURN * HALF_TURN - 4 * p)
}

/// The sine of `a` microradians, in millionths.
pub open spec fn sin_micro(a: int) -> int {
    let r = normalized(a);
    if r < HALF_TURN {
        arch(r)
    } else {
        -arch(r - HALF_TURN)
    }
}

/// The cosine of `a` microradians, in millionths: the sine a quarter turn on.
pub open spec fn cos_micro(a: int) -> int {
    sin_micro(a + QUARTER_TURN)
}

/// The angle of the point `(x, y)` for `0 <= y <= x` and `x > 0`, between
/// zero and an eighth of a turn. With `r = y / x` it is
/// `r (pi/4 + (1 - r) (0.2447 + 0.0663 r))`.
#[verifier::opaque]
pub open spec fn octant(y: int, x: int) -> int {
    let r = (y * MICRO) / x;
    let bend = ((MICRO - r) * (244_700 + (66_300 * r) / (MICRO as int))) / (MICRO as int);
    (r * (EIGHTH_TURN + bend)) / (MICRO as int)
}

/// The angle of the point `(x, y)` in the first quadrant, both coordinates
/// non-negative and not both zero.
pub open spec fn quadrant(y: int, x: int) -> int {
    if y <= x {
        octant(y, x)
    } else {
        QUARTER_TURN - octant(x, y)
    }
}

/// The angle of the point `(x, y)` against the positive `x` axis, between
/// minus half a turn and half a turn. The origin has angle zero.
pub open spec fn atan2_micro(y: int, x: int) -> int {
    if x == 0 && y == 0 {
        0
    } else {
        let q = quadrant(magnitude(y), magnitude(x));
        let upper = if x >= 0 {
            q
        } else {
            HALF_TURN - q
        };
        if y >= 0 {
            upper
        } else {
            -upper
        }
    }
}

/// The arch stays between zero and one, and is the same seen from either end.
pub proof fn lemma_arch_bounds(x: int)
    requires
        0 <= x <= HALF_TURN,
    ensures
        0 <= arch(x) <= MICRO,
        arch(x) == arch(HALF_TURN - x),
{
    reveal(arch);
    let h = HALF_TURN as int;
    let p = x * (h - x);
    let d = 5 * h * h - 4 * p;
    let n = 16 * p * MICRO;
    assert(0 <= p && 4 * p <= h * h) by (nonlinear_arith)
        requires
            0 <= x <= h,
            p == x * (h - x),
    ;
    assert(h * h == 9_869_600_294_464);
    assert(0 <= n / d <= MICRO) by (nonlinear_arith)
        requires
            0 <= n <= MICRO * d,
            d > 0,
    ;
    assert((h - x) * (h - (h - x)) == x * (h - x)) by (nonlinear_arith);
}

/// The sine and the cosine stay between minus one and one.
pub proof fn lemma_sin_cos_bounds(a: int)
    ensures
        -MICRO <= sin_micro(a) <= MICRO,
        -MICRO <= cos_micro(a) <= MICRO,
{
    let r = normalized(a);
    if r < HALF_TURN {
        lemma_arch_bounds(r);
    } else {
        lemma_arch_bounds(r - HALF_TURN);
    }
    let c = normalized(a + QUARTER_TURN);
    if c < HALF_TURN {
        lemma_arch_bounds(c);
    } else {
        lemma_arch_bounds(c - HALF_TURN);
    }
}

/// At the four quarter turns the sine and the cosine are exact.
pub proof fn lemma_sin_cos_at_quarter_turns()
    ensures
        sin_micro(0) == 0,
        cos_micro(0) == MICRO,
        sin_micro(QUARTER_TURN as int) == MICRO,
        cos_micro(QUARTER_TURN as int) == 0,
        sin_micro(HALF_TURN as int) == 0,
        cos_micro(HALF_TURN as int) == -MICRO,
        sin_micro(3 * QUARTER_TURN) == -MICRO,
        cos_micro(3 * QUARTER_TURN) == 0,
{
    lemma_arch_at_ends();
    lemma_arch_at_crest();
    assert(normalized(HALF_TURN + QUARTER_TURN) == 3 * QUARTER_TURN);
    assert(normalized(3 * QUARTER_TURN + QUARTER_TURN) == 0);
}

/// At either end the arch is zero.
proof fn lemma_arch_at_ends()
    ensures
        arch(0) == 0,
        arch(HALF_TURN as int) == 0,
{
    reveal(arch);
}

/// A quarter turn in, the arch reaches one exactly.
proof fn lemma_arch_at_crest()
    ensures
        arch(QUARTER_TURN as int) == MICRO,
{
    reveal(arch);
    let q = QUARTER_TURN as int;
    let h = HALF_TURN as int;
    let p = q * (h - q);
    assert(p == 2_467_400_073_616);
    let d = 5 * h * h - 4 * p;
    assert(d == 39_478_401_177_856);
    assert(16 * p * MICRO == d * MICRO);
    vstd::arithmetic::div_mod::lemma_div_multiples_vanish(MICRO as int, d);
}

/// Adding whole turns changes neither the sine nor the cosine.
pub proof fn lemma_sin_cos_periodic(a: int, turns: int)
    ensures
        sin_micro(a + turns * FULL_TURN) == sin_micro(a),
        cos_micro(a + turns * FULL_TURN) == cos_micro(a),
{
    lemma_normalized_periodic(a, turns);
    lemma_normalized_periodic(a + QUARTER_TURN, turns);
    assert(a + turns * FULL_TURN + QUARTER_TURN == a + QUARTER_TURN + turns * FULL_TURN);
}

/// Adding whole turns does not change the normalized angle.
pub proof fn lemma_normalized_periodic(a: int, turns: int)
    ensures
        normalized(a + turns * FULL_TURN) == normalized(a),
        0 <= normalized(a) < FULL_TURN,
{
    let f = FULL_TURN as int;
    vstd::arithmetic::div_mod::lemma_mod_multiples_vanish(turns, a, f);
    assert(f * turns + a == a + turns * f) by (nonlinear_arith);
}

/// Shifting an angle and shifting its normalized form come to the same
/// normalized angle.
pub proof fn lemma_normalized_shift(a: int, shift: int)
    ensures
        normalized(normalized(a) + shift) == normalized(a + shift),
{
    let f = FULL_TURN as int;
    let q = a / f;
    let r = a % f;
    vstd::arithmetic::div_mod::lemma_fundamental_div_mod(a, f);
    vstd::arithmetic::div_mod::lemma_mod_multiples_vanish(q, r + shift, f);
}

/// Half a turn on, the sine and the cosine change sign.
pub proof fn lemma_sin_cos_half_turn(a: int)
    ensures
        sin_micro(a + HALF_TURN) == -sin_micro(a),
        cos_micro(a + HALF_TURN) == -cos_micro(a),
{
    lemma_sin_half_turn(a);
    lemma_sin_half_turn(a + QUARTER_TURN);
    assert(a + HALF_TURN + QUARTER_TURN == a + QUARTER_TURN + HALF_TURN);
}

proof fn lemma_sin_half_turn(a: int)
    ensures
        sin_micro(a + HALF_TURN) == -sin_micro(a),
{
    let r = normalized(a);
    let s = normalized(a + HALF_TURN);
    assert(s == if r < HALF_TURN {
        r + HALF_TURN
    } else {
        r - HALF_TURN
    });
    lemma_arch_at_ends();
}

/// The sine is odd and the cosine is even.
pub proof fn lemma_sin_odd_cos_even(a: int)
    ensures
        sin_micro(-a) == -sin_micro(a),
        cos_micro(-a) == cos_micro(a),
{
    lemma_sin_odd(a);
    // cos(-a) = sin(q - a) = -sin(a - q) = sin(a - q + h) = sin(a + q)
    lemma_sin_odd(a - QUARTER_TURN);
    lemma_sin_half_turn(a - QUARTER_TURN);
    assert(-(a - QUARTER_TURN) == -a + QUARTER_TURN);
    assert(a - QUARTER_TURN + HALF_TURN == a + QUARTER_TURN);
}

proof fn lemma_sin_odd(a: int)
    ensures
        sin_micro(-a) == -sin_micro(a),
{
    let r = normalized(a);
    let s = normalized(-a);
    assert(s == if r == 0 {
        0int
    } else {
        FULL_TURN - r
    });
    lemma_arch_at_ends();
    if 0 < r < HALF_TURN {
        lemma_arch_bounds(r);
        assert(s - HALF_TURN == HALF_TURN - r);
    } else if r >= HALF_TURN {
        lemma_arch_bounds(r - HALF_TURN);
        assert(HALF_TURN - (r - HALF_TURN) == s);
        if r == HALF_TURN {
            lemma_arch_at_ends();
        }
    }
}

/// The octant angle stays between zero and an eighth of a turn.
pub proof fn lemma_octant_bounds(y: int, x: int)
    requires
        0 <= y <= x,
        x > 0,
    ensures
        0 <= octant(y, x) <= EIGHTH_TURN,
        y == 0 ==> octant(y, x) == 0,
        y == x ==> octant(y, x) == EIGHTH_TURN,
{
    reveal(octant);
    let m = MICRO as int;
    let r = (y * m) / x;
    assert(0 <= r <= m && (y == 0 ==> r == 0) && (y == x ==> r == m)) by (nonlinear_arith)
        requires
            0 <= y <= x,
            x > 0,
            r == (y * m) / x,
            m == 1_000_000,
    ;
    let c = 244_700 + (66_300 * r) / m;
    assert(244_700 <= c <= 311_000);
    let bend = ((m - r) * c) / m;
    assert(0 <= bend && bend * m <= (m - r) * 311_000) by (nonlinear_arith)
        requires
            0 <= r <= m,
            244_700 <= c <= 311_000,
            bend == ((m - r) * c) / m,
            m == 1_000_000,
    ;
    let e = EIGHTH_TURN as int;
    let t = r * (e + bend);
    assert(0 <= t && t <= e * m) by (nonlinear_arith)
        requires
            0 <= r <= m,
            0 <= bend,
            bend * m <= (m - r) * 311_000,
            t == r * (e + bend),
            e == 785_398,
            m == 1_000_000,
    ;
    if y == x {
        assert(bend == 0);
        assert(t == m * e) by (nonlinear_arith)
            requires
                t == r * (e + bend),
                bend == 0,
                r == m,
        ;
    }
    if y == 0 {
        assert(t == 0) by (nonlinear_arith)
            requires
                t == r * (e + bend),
                r == 0,
        ;
    }
}

/// The arctangent stays between minus half a turn and half a turn, and lies
/// in the half plane of its point.
pub proof fn lemma_atan2_bounds(y: int, x: int)
    ensures
        -HALF_TURN <= atan2_micro(y, x) <= HALF_TURN,
        y >= 0 ==> atan2_micro(y, x) >= 0,
        y < 0 ==> atan2_micro(y, x) <= 0,
        x >= 0 ==> -QUARTER_TURN <= atan2_micro(y, x) <= QUARTER_TURN,
        y >= 0 && x < 0 ==> atan2_micro(y, x) >= QUARTER_TURN,
        y < 0 && x < 0 ==> atan2_micro(y, x) <= -QUARTER_TURN,
{
    if x != 0 || y != 0 {
        lemma_quadrant_bounds(magnitude(y), magnitude(x));
    }
}

/// The quadrant angle stays between zero and a quarter turn.
pub proof fn lemma_quadrant_bounds(y: int, x: int)
    requires
        0 <= y,
        0 <= x,
        x != 0 || y != 0,
    ensures
        0 <= quadrant(y, x) <= QUARTER_TURN,
        y == 0 ==> quadrant(y, x) == 0,
        x == 0 ==> quadrant(y, x) == QUARTER_TURN,
        x == y ==> quadrant(y, x) == EIGHTH_TURN,
{
    if y <= x {
        lemma_octant_bounds(y, x);
    } else {
        lemma_octant_bounds(x, y);
    }
}

/// On the four half axes the arctangent is exact.
pub proof fn lemma_atan2_on_axes(d: int)
    requires
        d > 0,
    ensures
        atan2_micro(0, d) == 0,
        atan2_micro(d, 0) == QUARTER_TURN,
        atan2_micro(0, -d) == HALF_TURN,
        atan2_micro(-d, 0) == -QUARTER_TURN,
        atan2_micro(d, d) == EIGHTH_TURN,
{
    lemma_quadrant_bounds(0, d);
    lemma_quadrant_bounds(d, 0);
    lemma_quadrant_bounds(d, d);
}

/// Mirroring a point in the `x` axis negates its angle, unless it lies on
/// that axis.
pub proof fn lemma_atan2_mirror(y: int, x: int)
    requires
        y != 0,
    ensures
        atan2_micro(-y, x) == -atan2_micro(y, x),
{
}

/// Computes the arch for an angle in the first half turn.
fn arch_of(x: i64) -> (r: i64)
    requires
        0 <= x <= HALF_TURN,
    ensures
        r == arch(x as int),
        0 <= r <= MICRO,
{
    proof {
        reveal(arch);
        lemma_arch_bounds(x as int);
    }
    let h: i128 = HALF_TURN as i128;
    let xx: i128 = x as i128;
    assert(0 <= xx * (h - xx) && 4 * (xx * (h - xx)) <= h * h) by (nonlinear_arith)
        requires
            0 <= xx <= h,
    ;
    assert(h * h == 9_869_600_294_464);
    let p: i128 = xx * (h - xx);
    let n: i128 = 16 * p * (MICRO as i128);
    let d: i128 = 5 * h * h - 4 * p;
    (n / d) as i64
}

/// Computes the sine of `a` microradians, in millionths.
pub fn sin(a: i64) -> (r: i64)
    ensures
        r == sin_micro(a as int),
        -MICRO <= r <= MICRO,
{
    let t = reduce(a);
    if t < HALF_TURN {
        arch_of(t)
    } else {
        -arch_of(t - HALF_TURN)
    }
}

/// Computes the cosine of `a` microradians, in millionths.
pub fn cos(a: i64) -> (r: i64)
    ensures
        r == cos_micro(a as int),
        -MICRO <= r <= MICRO,
{
    let t = reduce(a);
    proof {
        lemma_normalized_shift(a as int, QUARTER_TURN as int);
    }
    sin(t + QUARTER_TURN)
}

/// Computes the sine of a phase too wide for an `i64`.
pub(crate) fn sin_wide(a: i128) -> (r: i64)
    ensures
        r == sin_micro(a as int),
        -MICRO <= r <= MICRO,
{
    sin(reduce_wide(a))
}

/// Computes the cosine of a phase too wide for an `i64`.
pub(crate) fn cos_wide(a: i128) -> (r: i64)
    ensures
        r == cos_micro(a as int),
        -MICRO <= r <= MICRO,
{
    let t = reduce_wide(a);
    proof {
        lemma_normalized_shift(a as int, QUARTER_TURN as int);
        lemma_normalized_shift(t as int, QUARTER_TURN as int);
    }
    cos(t)
}

/// Brings an angle into the interval from zero to a whole turn.
pub(crate) fn reduce(a: i64) -> (r: i64)
    ensures
        r == normalized(a as int),
        0 <= r < FULL_TURN,
{
    match a.checked_rem_euclid(FULL_TURN) {
        Some(r) => r,
        None => 0,
    }
}

/// Brings a wide angle into the interval from zero to a whole turn.
pub(crate) fn reduce_wide(a: i128) -> (r: i64)
    ensures
        r == normalized(a as int),
        0 <= r < FULL_TURN,
{
    match a.checked_rem_euclid(FULL_TURN as i128) {
        Some(r) => r as i64,
        None => 0,
    }
}

/// Computes the octant angle of two magnitudes.
fn octant_of(y: u64, x: u64) -> (r: i64)
    requires
        y <= x,
        x > 0,
    ensures
        r == octant(y as int, x as int),
        0 <= r <= EIGHTH_TURN,
{
    proof {
        reveal(octant);
        lemma_octant_bounds(y as int, x as int);
    }
    let m: u128 = 1_000_000;
    assert(y * m <= 0xffff_ffff_ffff_ffff * 1_000_000) by (nonlinear_arith)
        requires
            y <= 0xffff_ffff_ffff_ffff,
            m == 1_000_000,
    ;
    let ratio: u128 = ((y as u128) * m) / (x as u128);
    assert(ratio <= m) by (nonlinear_arith)
        requires
            ratio == (y * m) / (x as int),
            y <= x,
            x > 0,
            m == 1_000_000,
    ;
    let c: u128 = 244_700 + (66_300 * ratio) / m;
    assert((m - ratio) * c <= 1_000_000 * 311_000) by (nonlinear_arith)
        requires
            ratio <= m,
            m == 1_000_000,
            c <= 311_000,
    ;
    let bend: u128 = ((m - ratio) * c) / m;
    assert(ratio * (785_398 + bend) <= 1_000_000 * (785_398 + 311_000)) by (nonlinear_arith)
        requires
            ratio <= 1_000_000,
            bend <= 311_000,
    ;
    let t: u128 = ratio * (785_398 + bend);
    (t / m) as i64
}

/// Computes the arctangent of the point whose coordinates have the given
/// magnitudes and signs.
pub(crate) fn atan2_signed(y_negative: bool, y: u64, x_negative: bool, x: u64) -> (r: i64)
    requires
        y <= 0x8000_0000_0000_0000,
        x <= 0x8000_0000_0000_0000,
    ensures
        r == atan2_micro(
            if y_negative {
                -(y as int)
            } else {
                y as int
            },
            if x_negative {
                -(x as int)
            } else {
                x as int
            },
        ),
        -HALF_TURN <= r <= HALF_TURN,
{
    if x == 0 && y == 0 {
        return 0;
    }
    proof {
        lemma_quadrant_bounds(y as int, x as int);
    }
    let q: i64 = if y <= x {
        octant_of(y, x)
    } else {
        QUARTER_TURN - octant_of(x, y)
    };
    let upper: i64 = if x_negative && x > 0 {
        HALF_TURN - q
    } else {
        q
    };
    if y_negative && y > 0 {
        -upper
    } else {
        upper
    }
}

/// Computes the angle of the point `(x, y)` against the positive `x` axis,
/// in microradians.
pub fn atan2(y: i64, x: i64) -> (r: i64)
    ensures
        r == atan2_micro(y as int, x as int),
        -HALF_TURN <= r <= HALF_TURN,
{
    atan2_signed(y < 0, abs_u64(y), x < 0, abs_u64(x))
}

} // verus!
