//! Geometry utilities: angle normalization, the bearing of a target as the
//! vehicle sees it, and the projection of a bearing and a distance onto the
//! round display panel.
use vstd::prelude::*;
use crate::fixed::{MICRO, abs_u64, lemma_quot_bounds, lemma_quot_le, magnitude, quot};
use crate::trig::{
    FULL_TURN, HALF_TURN, QUARTER_TURN, atan2_micro, atan2_signed, cos, cos_micro,
    lemma_atan2_on_axes, lemma_normalized_periodic, lemma_sin_cos_at_quarter_turns,
    lemma_sin_cos_bounds, normalized, reduce, reduce_wide, sin, sin_micro,
};
use crate::vector::{Vec3, Vector};

verus! {

/// The panel's centre, in millionths of a pixel from its left edge.
pub const PANEL_CENTER_X: i64 = 100_000_000;

/// The panel's centre, in millionths of a pixel from its top edge.
pub const PANEL_CENTER_Y: i64 = 100_000_000;

/// The largest panel radius for which every projected coordinate is
/// representable.
pub const PANEL_RADIUS_LIMIT: i64 = 9_000_000_000_000_000_000;

/// The bearing that the panel draws straight up.
pub const BEARING_UP: i64 = QUARTER_TURN;

/// Maps any angle to the congruent one of at least zero and less than a
/// whole turn.
pub fn normalize_angle(a: i64) -> (r: i64)
    ensures
        r == normalized(a as int),
        0 <= r < FULL_TURN,
        (a - r) % (FULL_TURN as int) == 0,
{
    reduce(a)
}

/// The representative of `d` that is more than minus half a turn and at most
/// half a turn.
pub open spec fn signed_turn(d: int) -> int {
    let r = normalized(d);
    if r > HALF_TURN {
        r - FULL_TURN
    } else {
        r
    }
}

/// An angle that is more than minus half a turn and at most half a turn is
/// its own signed turn, and so stands for every angle that differs from it
/// by whole turns.
pub proof fn lemma_signed_turn_unique(d: int, near: int)
    requires
        -HALF_TURN < near <= HALF_TURN,
        (d - near) % (FULL_TURN as int) == 0,
    ensures
        signed_turn(d) == near,
{
    let f = FULL_TURN as int;
    let turns = (d - near) / f;
    vstd::arithmetic::div_mod::lemma_fundamental_div_mod(d - near, f);
    assert(d == near + turns * f) by (nonlinear_arith)
        requires
            d - near == f * turns + 0,
    ;
    lemma_normalized_periodic(near, turns);
}

/// Computes the shortest signed turn that takes the angle `from` to the
/// angle `to`.
pub fn shortest_turn(from: i64, to: i64) -> (r: i64)
    ensures
        r == signed_turn(to - from),
        -HALF_TURN < r <= HALF_TURN,
        (to - from - r) % (FULL_TURN as int) == 0,
{
    let t = reduce_wide(to as i128 - from as i128);
    if t > HALF_TURN {
        t - FULL_TURN
    } else {
        t
    }
}

/// The bearing of a target at `local`, its offset from the vehicle in the
/// vehicle's own frame: the arctangent of the negated lateral and negated
/// astern coordinates, a quarter turn on, normalized.
pub open spec fn bearing_of(local: Vector) -> int {
    normalized(atan2_micro(-local.x, -local.z) + QUARTER_TURN)
}

/// Computes the bearing of a target from its offset in the vehicle's frame.
pub fn bearing(local: Vec3) -> (r: i64)
    ensures
        r == bearing_of(local@),
        0 <= r < FULL_TURN,
{
    let a = atan2_signed(local.x > 0, abs_u64(local.x), local.z > 0, abs_u64(local.z));
    reduce(a + QUARTER_TURN)
}

/// The distance from the panel's centre at which a target `distance` away is
/// drawn, when `max_range` reaches the rim at `panel_radius`.
pub open spec fn panel_offset(distance: int, max_range: int, panel_radius: int) -> int {
    quot(distance * panel_radius, max_range)
}

/// The horizontal panel coordinate of a target.
pub open spec fn panel_x(bearing: int, distance: int, max_range: int, panel_radius: int) -> int {
    PANEL_CENTER_X + quot(
        panel_offset(distance, max_range, panel_radius) * cos_micro(bearing),
        MICRO as int,
    )
}

/// The vertical panel coordinate of a target. The panel's vertical axis
/// grows downward, so the sine is subtracted.
pub open spec fn panel_y(bearing: int, distance: int, max_range: int, panel_radius: int) -> int {
    PANEL_CENTER_Y - quot(
        panel_offset(distance, max_range, panel_radius) * sin_micro(bearing),
        MICRO as int,
    )
}

/// A target within range is drawn within the rim.
pub proof fn lemma_panel_bounds(bearing: int, distance: int, max_range: int, panel_radius: int)
    requires
        0 <= distance <= max_range,
        0 < max_range,
        0 <= panel_radius,
    ensures
        0 <= panel_offset(distance, max_range, panel_radius) <= panel_radius,
        PANEL_CENTER_X - panel_radius <= panel_x(bearing, distance, max_range, panel_radius)
            <= PANEL_CENTER_X + panel_radius,
        PANEL_CENTER_Y - panel_radius <= panel_y(bearing, distance, max_range, panel_radius)
            <= PANEL_CENTER_Y + panel_radius,
{
    let s = panel_offset(distance, max_range, panel_radius);
    assert(0 <= distance * panel_radius <= panel_radius * max_range) by (nonlinear_arith)
        requires
            0 <= distance <= max_range,
            0 <= panel_radius,
    ;
    lemma_quot_le(distance * panel_radius, max_range, panel_radius);
    lemma_quot_bounds(distance * panel_radius, max_range);
    lemma_sin_cos_bounds(bearing);
    let c = cos_micro(bearing);
    let n = sin_micro(bearing);
    let m = MICRO as int;
    assert(magnitude(s * c) <= panel_radius * m && magnitude(s * n) <= panel_radius * m)
        by (nonlinear_arith)
        requires
            0 <= s <= panel_radius,
            -m <= c <= m,
            -m <= n <= m,
    ;
    lemma_quot_le(s * c, m, panel_radius);
    lemma_quot_le(s * n, m, panel_radius);
}

/// Projects a bearing and a distance onto the panel: the distance is scaled
/// so that `max_range` lands on the rim, and laid off from the centre along
/// the bearing, with the vertical axis growing downward.
pub fn project_to_panel(bearing: i64, distance: i64, max_range: i64, panel_radius: i64) -> (p: (
    i64,
    i64,
))
    requires
        0 <= distance <= max_range,
        0 < max_range,
        0 <= panel_radius <= PANEL_RADIUS_LIMIT,
    ensures
        p.0 == panel_x(bearing as int, distance as int, max_range as int, panel_radius as int),
        p.1 == panel_y(bearing as int, distance as int, max_range as int, panel_radius as int),
{
    proof {
        lemma_panel_bounds(bearing as int, distance as int, max_range as int, panel_radius as int);
        assert(0 <= distance * panel_radius <= 0x7fff_ffff_ffff_ffff * 0x7fff_ffff_ffff_ffff)
            by (nonlinear_arith)
            requires
                0 <= distance <= 0x7fff_ffff_ffff_ffff,
                0 <= panel_radius <= 0x7fff_ffff_ffff_ffff,
        ;
    }
    let scaled: i128 = ((distance as i128) * (panel_radius as i128)) / (max_range as i128);
    let c: i128 = cos(bearing) as i128;
    let s: i128 = sin(bearing) as i128;
    assert(-0x7fff_ffff_ffff_ffff * 1_000_000 <= scaled * c <= 0x7fff_ffff_ffff_ffff * 1_000_000
        && -0x7fff_ffff_ffff_ffff * 1_000_000 <= scaled * s <= 0x7fff_ffff_ffff_ffff * 1_000_000)
        by (nonlinear_arith)
        requires
            0 <= scaled <= 0x7fff_ffff_ffff_ffff,
            -1_000_000 <= c <= 1_000_000,
            -1_000_000 <= s <= 1_000_000,
    ;
    let dx: i128 = (scaled * c) / (MICRO as i128);
    let dy: i128 = (scaled * s) / (MICRO as i128);
    ((PANEL_CENTER_X as i128 + dx) as i64, (PANEL_CENTER_Y as i128 - dy) as i64)
}

/// A target dead ahead of the vehicle, with no lateral offset, has the
/// bearing that the panel draws straight up, and is drawn directly above the
/// panel's centre.
pub proof fn lemma_dead_ahead_is_up(
    local: Vector,
    distance: int,
    max_range: int,
    panel_radius: int,
)
    requires
        local.x == 0,
        local.z < 0,
    ensures
        bearing_of(local) == BEARING_UP,
        panel_x(bearing_of(local), distance, max_range, panel_radius) == PANEL_CENTER_X,
        panel_y(bearing_of(local), distance, max_range, panel_radius) == PANEL_CENTER_Y
            - panel_offset(distance, max_range, panel_radius),
{
    lemma_atan2_on_axes(-local.z);
    lemma_sin_cos_at_quarter_turns();
    let s = panel_offset(distance, max_range, panel_radius);
    assert(s * 0 == 0) by (nonlinear_arith);
    let m = MICRO as int;
    vstd::arithmetic::div_mod::lemma_div_multiples_vanish(s, m);
    vstd::arithmetic::div_mod::lemma_div_multiples_vanish(-s, m);
    assert(m * s == s * m && m * (-s) == -(s * m)) by (nonlinear_arith);
}

} // verus!
