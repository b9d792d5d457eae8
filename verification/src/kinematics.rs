//! Vehicle kinematics: thrust along the heading, drag when coasting, the lift
//! left over once the ballast's weight is taken from the hull's buoyancy, and
//! the hard boundary at the surface.
//!
//! The host's physics step moves the body between ticks; `drive` sets the
//! velocity that step will use and pulls the body back to the surface if the
//! last step carried it above.
use vstd::prelude::*;
use crate::ballast::{BallastState, LEVEL_FULL};
use crate::fixed::{MICRO, NANO, WORLD_LIMIT, fits_i64, lemma_quot_le, magnitude, quot};
use crate::vector::{Axes, Frame, Vec3, Vector};

verus! {

/// Under thrust the vehicle moves at 10 metres per second.
pub const THRUST_SPEED: i64 = 10;

/// Coasting keeps nine tenths of the velocity each tick.
pub const DRAG_KEEP: i64 = 9;

/// The denominator of the drag factor.
pub const DRAG_OF: i64 = 10;

/// The hull's constant lift: 5.0, in billionths.
pub const BASE_BUOYANCY: i64 = 5_000_000_000;

/// The weight of a full ballast tank: 15.0.
pub const BALLAST_WEIGHT: i64 = 15;

/// The helm turns the vehicle at 1.5 radians per second: three microradians
/// every two microseconds.
pub const TURN_PER_TWO_MICROS: i64 = 3;

/// What the helm asks for during one tick.
#[derive(Clone, Copy, Debug, PartialEq, Eq, Structural)]
pub struct Helm {
    pub ahead: bool,
    pub astern: bool,
    pub port: bool,
    pub starboard: bool,
}

/// Where the vehicle is, how it is oriented and how it moves.
#[derive(Clone, Copy, Debug)]
pub struct VehiclePose {
    pub position: Vec3,
    pub frame: Frame,
    pub velocity: Vec3,
}

/// The thrust the helm asks for: 1 ahead, -1 astern, 0 for neither or both.
pub open spec fn thrust_intent(helm: Helm) -> int {
    (if helm.ahead {
        1int
    } else {
        0int
    }) - (if helm.astern {
        1int
    } else {
        0int
    })
}

/// The turn the helm asks for over `dt` microseconds, in microradians:
/// positive to port.
pub open spec fn yaw_step(helm: Helm, dt: nat) -> int {
    let rate = quot(TURN_PER_TWO_MICROS * dt, 2);
    (if helm.port {
        rate
    } else {
        0int
    }) - (if helm.starboard {
        rate
    } else {
        0int
    })
}

/// The lift left once the ballast's weight is taken off, in billionths.
pub open spec fn net_buoyancy(fill_level: int) -> int {
    BASE_BUOYANCY - BALLAST_WEIGHT * fill_level
}

/// The velocity before buoyancy: under thrust the horizontal components are
/// set along the heading and the vertical one is kept; coasting, every
/// component keeps nine tenths.
pub open spec fn propelled(velocity: Vector, axes: Axes, intent: int) -> Vector {
    if intent != 0 {
        Vector {
            x: -axes.back.x * intent * THRUST_SPEED,
            y: velocity.y,
            z: -axes.back.z * intent * THRUST_SPEED,
        }
    } else {
        Vector {
            x: quot(velocity.x * DRAG_KEEP, DRAG_OF as int),
            y: quot(velocity.y * DRAG_KEEP, DRAG_OF as int),
            z: quot(velocity.z * DRAG_KEEP, DRAG_OF as int),
        }
    }
}

/// The vertical velocity once buoyancy has acted for `dt` microseconds on a
/// vehicle at height `y`; above the surface there is none.
pub open spec fn lifted(vertical: int, y: int, fill_level: int, dt: nat) -> int {
    if y <= 0 {
        vertical + quot(net_buoyancy(fill_level) * dt, NANO as int)
    } else {
        vertical
    }
}

/// The vertical velocity after the surface rule: a vehicle found above the
/// surface loses any upward velocity.
pub open spec fn surfaced_velocity(vertical: int, y: int) -> int {
    if y > 0 && vertical > 0 {
        0
    } else {
        vertical
    }
}

/// The velocity at the end of the tick.
pub open spec fn driven_velocity(
    velocity: Vector,
    axes: Axes,
    helm: Helm,
    y: int,
    fill_level: int,
    dt: nat,
) -> Vector {
    let p = propelled(velocity, axes, thrust_intent(helm));
    Vector { y: surfaced_velocity(lifted(p.y, y, fill_level, dt), y), ..p }
}

/// The position at the end of the tick: a vehicle found above the surface is
/// put back on it.
pub open spec fn surfaced_position(position: Vector) -> Vector {
    Vector {
        y: if position.y > 0 {
            0
        } else {
            position.y
        },
        ..position
    }
}

/// A vertical velocity within the world limit stays representable through a
/// tick, whatever the helm asks and however full the tank.
pub proof fn lemma_drive_within_world(
    velocity: Vector,
    axes: Axes,
    helm: Helm,
    y: int,
    fill_level: int,
    dt: nat,
)
    requires
        -WORLD_LIMIT <= velocity.y <= WORLD_LIMIT,
        0 <= fill_level <= LEVEL_FULL,
        dt <= u32::MAX,
    ensures
        fits_i64(driven_velocity(velocity, axes, helm, y, fill_level, dt).y),
{
    let force = net_buoyancy(fill_level);
    assert(magnitude(force * dt) <= 43 * NANO * NANO) by (nonlinear_arith)
        requires
            -10_000_000_000 <= force <= 5_000_000_000,
            0 <= dt <= 0xffff_ffff,
            NANO == 1_000_000_000,
    ;
    lemma_quot_le(force * dt, NANO as int, 43 * NANO);
    lemma_quot_le(velocity.y * DRAG_KEEP, DRAG_OF as int, magnitude(velocity.y));
}

impl VehiclePose {
    /// The pose that stands in when there is no vehicle: at the origin,
    /// aligned with the world, at rest.
    pub fn at_rest() -> (p: VehiclePose)
        ensures
            p.position == (Vec3 { x: 0, y: 0, z: 0 }),
            p.velocity == (Vec3 { x: 0, y: 0, z: 0 }),
            p.frame@ == Axes::aligned(),
    {
        VehiclePose { position: Vec3::zero(), frame: Frame::aligned(), velocity: Vec3::zero() }
    }

    /// How far below the surface the vehicle is; negative above it.
    pub fn depth(&self) -> (d: i64)
        requires
            self.position.y > i64::MIN,
        ensures
            d == -self.position.y,
    {
        -self.position.y
    }
}

/// The pose to work with when the vehicle may be missing: the vehicle's own,
/// or the pose at rest.
pub fn pose_or_rest(pose: Option<VehiclePose>) -> (p: VehiclePose)
    ensures
        pose matches Some(q) ==> p == q,
        pose is None ==> p.position == (Vec3 { x: 0, y: 0, z: 0 }) && p.velocity == (Vec3 {
            x: 0,
            y: 0,
            z: 0,
        }) && p.frame@ == Axes::aligned(),
{
    match pose {
        Some(q) => q,
        None => VehiclePose::at_rest(),
    }
}

/// The depth to work with when the vehicle may be missing: the vehicle's own,
/// or the surface.
pub fn depth_or_surface(pose: Option<&VehiclePose>) -> (d: i64)
    requires
        pose matches Some(p) ==> p.position.y > i64::MIN,
    ensures
        d == match pose {
            Some(p) => -p.position.y,
            None => 0,
        },
{
    match pose {
        Some(p) => p.depth(),
        None => 0,
    }
}

/// Computes the turn the helm asks for over `dt` microseconds. The host
/// composes it with the vehicle's orientation; it does not depend on how the
/// vehicle moves.
pub fn helm_turn(helm: Helm, dt: u32) -> (turn: i64)
    ensures
        turn == yaw_step(helm, dt as nat),
{
    let rate: i64 = (TURN_PER_TWO_MICROS * (dt as i64)) / 2;
    let mut turn: i64 = 0;
    if helm.port {
        turn = turn + rate;
    }
    if helm.starboard {
        turn = turn - rate;
    }
    turn
}

/// Nine tenths of a velocity component, rounded toward zero.
fn damped(v: i64) -> (r: i64)
    ensures
        r == quot(v * DRAG_KEEP, DRAG_OF as int),
{
    proof {
        lemma_quot_le(v * DRAG_KEEP, DRAG_OF as int, magnitude(v as int));
    }
    (((v as i128) * (DRAG_KEEP as i128)) / (DRAG_OF as i128)) as i64
}

/// One component of the thrust velocity, from the matching component of the
/// astern axis.
fn thrust_along(back: i64, intent: i64) -> (r: i64)
    requires
        -MICRO <= back <= MICRO,
        intent == 1 || intent == -1,
    ensures
        r == -back * intent * THRUST_SPEED,
{
    assert(-back * intent * THRUST_SPEED == if intent == 1 {
        -back * 10
    } else {
        back * 10
    }) by (nonlinear_arith)
        requires
            intent == 1 || intent == -1,
    ;
    if intent == 1 {
        -back * THRUST_SPEED
    } else {
        back * THRUST_SPEED
    }
}

/// Runs the vehicle's kinematics for one tick of `dt` microseconds.
///
/// Under thrust the horizontal velocity is set along the heading at the
/// thrust speed; coasting, the whole velocity is damped. At or below the
/// surface the net buoyancy then accelerates the vehicle vertically. A
/// vehicle found above the surface is put back on it and loses any upward
/// velocity. The one input this cannot serve is a vertical velocity that
/// leaves the range of an `i64`.
pub fn drive(pose: &mut VehiclePose, helm: Helm, ballast: &BallastState, dt: u32)
    requires
        fits_i64(
            driven_velocity(
                old(pose).velocity@,
                old(pose).frame@,
                helm,
                old(pose).position.y as int,
                ballast@.fill_level,
                dt as nat,
            ).y,
        ),
    ensures
        final(pose).velocity@ == driven_velocity(
            old(pose).velocity@,
            old(pose).frame@,
            helm,
            old(pose).position.y as int,
            ballast@.fill_level,
            dt as nat,
        ),
        final(pose).position@ == surfaced_position(old(pose).position@),
        final(pose).frame == old(pose).frame,
        final(pose).position.y <= 0,
        old(pose).position.y > 0 ==> final(pose).position.y == 0 && final(pose).velocity.y <= 0,
{
    let axes = pose.frame.axes();
    let intent: i64 = (if helm.ahead {
        1i64
    } else {
        0i64
    }) - (if helm.astern {
        1i64
    } else {
        0i64
    });
    let y = pose.position.y;
    let mut vx: i64 = pose.velocity.x;
    let mut vy: i128 = pose.velocity.y as i128;
    let mut vz: i64 = pose.velocity.z;
    if intent != 0 {
        vx = thrust_along(axes.back.x, intent);
        vz = thrust_along(axes.back.z, intent);
    } else {
        vx = damped(vx);
        vy = damped(pose.velocity.y) as i128;
        vz = damped(vz);
    }
    if y <= 0 {
        let fill = ballast.fill_level();
        let force: i128 = BASE_BUOYANCY as i128 - (BALLAST_WEIGHT as i128) * (fill as i128);
        assert(-10_000_000_000 * 0xffff_ffff <= force * dt <= 5_000_000_000 * 0xffff_ffff)
            by (nonlinear_arith)
            requires
                -10_000_000_000 <= force <= 5_000_000_000,
                0 <= dt <= 0xffff_ffff,
        ;
        vy = vy + (force * (dt as i128)) / (NANO as i128);
    }
    if y > 0 {
        pose.position.y = 0;
        if vy > 0 {
            vy = 0;
        }
    }
    pose.velocity = Vec3 { x: vx, y: vy as i64, z: vz };
}

} // verus!
