//! What the surroundings look like from the simulation's side: the height of
//! the water surface as waves pass over it, and how the light changes with
//! the observer's depth.
use vstd::prelude::*;
use crate::fixed::{MICRO, lemma_quot_le, magnitude, quot};
use crate::trig::{lemma_sin_cos_bounds, sin_micro, sin_wide};

verus! {

/// The wave phase advances 1.2 radians per second.
pub const WAVE_SPEED_TENTHS: i64 = 12;

/// Daylight at the surface, in lux.
pub const SURFACE_LIGHT: i64 = 12_000;

/// Ambient brightness at the surface.
pub const SURFACE_AMBIENT: i64 = 800;

/// The ambient brightness gained by the time the light has fully adapted.
pub const DEEP_AMBIENT_GAIN: i64 = 300;

/// The light has fully adapted at 10 metres.
pub const ADAPTATION_DEPTH: i64 = 10_000_000;

/// Below 2 metres the light turns blue.
pub const BLUE_DEPTH: i64 = 2_000_000;

/// One wave train: `weight` hundredths of a metre times the sine of
/// `(scale * along) / 1000 + (rate * phase) / 10`.
pub open spec fn ripple(weight: int, scale: int, along: int, rate: int, phase: int) -> int {
    quot(weight * sin_micro(quot(scale * along, 1000) + quot(rate * phase, 10)), 100)
}

/// The phase of the waves after `elapsed` microseconds.
pub open spec fn wave_phase(elapsed: int) -> int {
    quot(WAVE_SPEED_TENTHS * elapsed, 10)
}

/// The height of the water surface at the horizontal position `(x, z)` after
/// `elapsed` microseconds: four crossing wave trains and two long swells.
pub open spec fn surface_height(x: int, z: int, elapsed: int) -> int {
    let p = wave_phase(elapsed);
    ripple(16, 20, x, 10, p) + ripple(12, 15, z, -7, p) + ripple(8, 10, x + z, 12, p) + ripple(
        4,
        8,
        x - z,
        -5,
        p,
    ) + ripple(12, 5, x, 3, p) + ripple(8, 4, z, -2, p)
}

/// No wave train rises or falls by more than its weight.
pub proof fn lemma_ripple_bounds(weight: int, scale: int, along: int, rate: int, phase: int)
    requires
        weight >= 0,
    ensures
        -weight * 10_000 <= ripple(weight, scale, along, rate, phase) <= weight * 10_000,
{
    let a = quot(scale * along, 1000) + quot(rate * phase, 10);
    lemma_sin_cos_bounds(a);
    let s = sin_micro(a);
    assert(magnitude(weight * s) <= (weight * 10_000) * 100) by (nonlinear_arith)
        requires
            weight >= 0,
            -1_000_000 <= s <= 1_000_000,
    ;
    lemma_quot_le(weight * s, 100, weight * 10_000);
}

/// The surface never rises or falls by more than 0.6 metres.
pub proof fn lemma_surface_height_bounds(x: int, z: int, elapsed: int)
    ensures
        -600_000 <= surface_height(x, z, elapsed) <= 600_000,
{
    let p = wave_phase(elapsed);
    lemma_ripple_bounds(16, 20, x, 10, p);
    lemma_ripple_bounds(12, 15, z, -7, p);
    lemma_ripple_bounds(8, 10, x + z, 12, p);
    lemma_ripple_bounds(4, 8, x - z, -5, p);
    lemma_ripple_bounds(12, 5, x, 3, p);
    lemma_ripple_bounds(8, 4, z, -2, p);
}

/// Computes one wave train.
fn ripple_at(weight: i64, scale: i64, along: i128, rate: i64, phase: i128) -> (r: i64)
    requires
        0 <= weight <= 16,
        0 <= scale <= 20,
        -12 <= rate <= 12,
        -0x1_0000_0000_0000_0000 <= along <= 0x1_0000_0000_0000_0000,
        -0x2_0000_0000_0000_0000 <= phase <= 0x2_0000_0000_0000_0000,
    ensures
        r == ripple(weight as int, scale as int, along as int, rate as int, phase as int),
        -weight * 10_000 <= r <= weight * 10_000,
{
    proof {
        lemma_ripple_bounds(weight as int, scale as int, along as int, rate as int, phase as int);
    }
    assert(-20 * 0x1_0000_0000_0000_0000 <= scale * along <= 20 * 0x1_0000_0000_0000_0000)
        by (nonlinear_arith)
        requires
            0 <= scale <= 20,
            -0x1_0000_0000_0000_0000 <= along <= 0x1_0000_0000_0000_0000,
    ;
    assert(-12 * 0x2_0000_0000_0000_0000 <= rate * phase <= 12 * 0x2_0000_0000_0000_0000)
        by (nonlinear_arith)
        requires
            -12 <= rate <= 12,
            -0x2_0000_0000_0000_0000 <= phase <= 0x2_0000_0000_0000_0000,
    ;
    let a: i128 = ((scale as i128) * along) / 1000 + ((rate as i128) * phase) / 10;
    let s: i64 = sin_wide(a);
    assert(-16 * 1_000_000 <= weight * s <= 16 * 1_000_000) by (nonlinear_arith)
        requires
            0 <= weight <= 16,
            -1_000_000 <= s <= 1_000_000,
    ;
    (weight * s) / 100
}

/// Computes the height of the water surface at the horizontal position
/// `(x, z)` after `elapsed` microseconds.
pub fn wave_height(x: i64, z: i64, elapsed: u64) -> (h: i64)
    ensures
        h == surface_height(x as int, z as int, elapsed as int),
        -600_000 <= h <= 600_000,
{
    assert(0 <= WAVE_SPEED_TENTHS * elapsed <= 12 * 0xffff_ffff_ffff_ffff) by (nonlinear_arith)
        requires
            WAVE_SPEED_TENTHS == 12,
            0 <= elapsed <= 0xffff_ffff_ffff_ffff,
    ;
    let p: i128 = ((WAVE_SPEED_TENTHS as i128) * (elapsed as i128)) / 10;
    let xx: i128 = x as i128;
    let zz: i128 = z as i128;
    ripple_at(16, 20, xx, 10, p) + ripple_at(12, 15, zz, -7, p) + ripple_at(8, 10, xx + zz, 12, p)
        + ripple_at(4, 8, xx - zz, -5, p) + ripple_at(12, 5, xx, 3, p) + ripple_at(
        8,
        4,
        zz,
        -2,
        p,
    )
}

/// The light at one depth.
#[derive(Clone, Copy, Debug, PartialEq, Eq, Structural)]
pub struct Lighting {
    /// The daylight that reaches the observer, in millionths of a lux.
    pub illuminance: i64,
    /// The ambient brightness, in millionths.
    pub ambient: i64,
    /// Whether the light has turned blue.
    pub blue: bool,
}

/// How far the light has adapted at `depth`, from 0 at the surface to 1.0 at
/// the adaptation depth and below.
pub open spec fn adaptation(depth: int) -> int {
    if depth <= 0 {
        0
    } else if depth >= ADAPTATION_DEPTH {
        MICRO as int
    } else {
        quot(depth, 10)
    }
}

/// The light at `depth`: the daylight falls to half as the light adapts, the
/// ambient brightness rises, and below the blue depth the colour changes.
pub open spec fn light_at(depth: int) -> (int, int, bool) {
    let f = adaptation(depth);
    (
        SURFACE_LIGHT * MICRO - (SURFACE_LIGHT / 2) * f,
        SURFACE_AMBIENT * MICRO + DEEP_AMBIENT_GAIN * f,
        depth > BLUE_DEPTH,
    )
}

/// Computes the light at `depth`, the observer's distance below the surface.
pub fn lighting_at(depth: i64) -> (l: Lighting)
    ensures
        (l.illuminance as int, l.ambient as int, l.blue) == light_at(depth as int),
        SURFACE_LIGHT / 2 * MICRO <= l.illuminance <= SURFACE_LIGHT * MICRO,
        SURFACE_AMBIENT * MICRO <= l.ambient <= (SURFACE_AMBIENT + DEEP_AMBIENT_GAIN) * MICRO,
{
    let f: i64 = if depth <= 0 {
        0
    } else if depth >= ADAPTATION_DEPTH {
        MICRO
    } else {
        depth / 10
    };
    assert(0 <= f <= MICRO);
    assert(0 <= 6_000 * f <= 6_000 * MICRO && 0 <= 300 * f <= 300 * MICRO);
    Lighting {
        illuminance: SURFACE_LIGHT * MICRO - (SURFACE_LIGHT / 2) * f,
        ambient: SURFACE_AMBIENT * MICRO + DEEP_AMBIENT_GAIN * f,
        blue: depth > BLUE_DEPTH,
    }
}

} // verus!
