//! Observer tracking: a viewpoint that trails the vehicle. Its yaw chases the
//! vehicle's yaw by the shortest way round, its pitch is set by hand within
//! fixed limits, and its position eases toward a point on a sphere about the
//! vehicle.
use vstd::prelude::*;
use crate::fixed::{MICRO, WORLD_LIMIT, fits_i64, lemma_quot_le, magnitude, quot};
use crate::geometry::{shortest_turn, signed_turn};
use crate::kinematics::VehiclePose;
use crate::trig::{cos, cos_micro, lemma_sin_cos_bounds, sin, sin_micro};
use crate::vector::{Vec3, Vector};

verus! {

/// The observer starts 25 metres from the vehicle.
pub const START_DISTANCE: i64 = 25_000_000;

/// The yaw closes on its target at twice the remaining turn per second.
pub const FOLLOW_RATE: i64 = 2;

/// The observer is swung by hand at 2 radians per second: 2 microradians a
/// microsecond.
pub const ORBIT_RATE: i64 = 2;

/// The pitch is kept within one radian of level.
pub const PITCH_LIMIT: i64 = 1_000_000;

/// The observer rides 5 metres above the sphere's point.
pub const RISE: i64 = 5_000_000;

/// Each tick the observer covers one part in this many of the way to its
/// target position.
pub const EASE_PARTS: i64 = 10;

/// How the observer is swung by hand during one tick.
#[derive(Clone, Copy, Debug, PartialEq, Eq, Structural)]
pub struct Orbit {
    pub left: bool,
    pub right: bool,
    pub up: bool,
    pub down: bool,
}

/// The observer's state.
#[derive(Clone, Copy, Debug, PartialEq, Eq, Structural)]
pub struct ObserverState {
    pub distance: i64,
    pub yaw: i64,
    pub pitch: i64,
    pub target_yaw: i64,
}

/// The mathematical form of the observer's state.
pub struct ObserverModel {
    pub distance: int,
    pub yaw: int,
    pub pitch: int,
    pub target_yaw: int,
}

impl View for ObserverState {
    type V = ObserverModel;

    open spec fn view(&self) -> ObserverModel {
        ObserverModel {
            distance: self.distance as int,
            yaw: self.yaw as int,
            pitch: self.pitch as int,
            target_yaw: self.target_yaw as int,
        }
    }
}

/// A pitch brought back within its limits.
pub open spec fn limited_pitch(pitch: int) -> int {
    if pitch < -PITCH_LIMIT {
        -PITCH_LIMIT as int
    } else if pitch > PITCH_LIMIT {
        PITCH_LIMIT as int
    } else {
        pitch
    }
}

/// The point one part in `EASE_PARTS` of the way from `from` to `to`, for one
/// coordinate.
pub open spec fn eased(from: int, to: int) -> int {
    from + quot(to - from, EASE_PARTS as int)
}

impl ObserverModel {
    /// The state after the observer is swung by hand for `dt` microseconds:
    /// left and right move the yaw; up, then down, move the pitch, which is
    /// brought back within its limits after each.
    pub open spec fn orbited(self, orbit: Orbit, dt: nat) -> ObserverModel {
        let yaw = self.yaw - (if orbit.left {
            ORBIT_RATE * dt
        } else {
            0
        }) + (if orbit.right {
            ORBIT_RATE * dt
        } else {
            0
        });
        let raised = if orbit.up {
            limited_pitch(self.pitch + ORBIT_RATE * dt)
        } else {
            self.pitch
        };
        let pitch = if orbit.down {
            limited_pitch(raised - ORBIT_RATE * dt)
        } else {
            raised
        };
        ObserverModel { yaw, pitch, ..self }
    }

    /// The state after the yaw has chased `subject_yaw` for `dt`
    /// microseconds: the target is set, and the yaw moves by the shortest
    /// signed turn toward it, times the follow rate, times the time.
    pub open spec fn turned(self, subject_yaw: int, dt: nat) -> ObserverModel {
        ObserverModel {
            target_yaw: subject_yaw,
            yaw: self.yaw + quot(
                signed_turn(subject_yaw - self.yaw) * FOLLOW_RATE * dt,
                MICRO as int,
            ),
            ..self
        }
    }

    /// Where the observer wants to be, relative to the vehicle: the point of
    /// the sphere of radius `distance` at this yaw and pitch, raised.
    pub open spec fn offset(self) -> Vector {
        Vector {
            x: quot(self.distance * sin_micro(self.yaw), MICRO as int),
            y: quot(self.distance * sin_micro(self.pitch), MICRO as int) + RISE,
            z: quot(
                self.distance * cos_micro(self.yaw) * cos_micro(self.pitch),
                MICRO * MICRO,
            ),
        }
    }

    /// Where the observer wants to be when the vehicle is at `subject`.
    pub open spec fn target(self, subject: Vector) -> Vector {
        subject.plus(self.offset())
    }

    /// Where the observer is after easing from `camera` toward its target.
    pub open spec fn approach(self, subject: Vector, camera: Vector) -> Vector {
        let t = self.target(subject);
        Vector { x: eased(camera.x, t.x), y: eased(camera.y, t.y), z: eased(camera.z, t.z) }
    }
}

/// Easing lands between where it started and where it is headed.
pub proof fn lemma_eased_between(from: int, to: int)
    ensures
        from <= to ==> from <= eased(from, to) <= to,
        to <= from ==> to <= eased(from, to) <= from,
{
    lemma_quot_le(to - from, EASE_PARTS as int, magnitude(to - from));
    crate::fixed::lemma_quot_bounds(to - from, EASE_PARTS as int);
}

/// An observer whose yaw and distance are within the world limit stays
/// representable through a tick, wherever in the world the vehicle is and
/// however the observer is swung.
pub proof fn lemma_observer_within_world(
    s: ObserverModel,
    orbit: Orbit,
    subject_yaw: int,
    subject: Vector,
    dt: nat,
)
    requires
        -WORLD_LIMIT <= s.yaw <= WORLD_LIMIT,
        -WORLD_LIMIT <= s.distance <= WORLD_LIMIT,
        subject.within(WORLD_LIMIT as int),
        dt <= u32::MAX,
    ensures
        fits_i64(s.orbited(orbit, dt).yaw),
        fits_i64(s.turned(subject_yaw, dt).yaw),
        s.turned(subject_yaw, dt).target(subject).fits(),
{
    let m = MICRO as int;
    let w = WORLD_LIMIT as int;
    let gap = signed_turn(subject_yaw - s.yaw);
    assert(magnitude(gap * FOLLOW_RATE * dt) <= 30_000_000_000 * m) by (nonlinear_arith)
        requires
            -3_141_592 <= gap <= 3_141_592,
            0 <= dt <= 0xffff_ffff,
            FOLLOW_RATE == 2,
            m == 1_000_000,
    ;
    lemma_quot_le(gap * FOLLOW_RATE * dt, m, 30_000_000_000);
    let t = s.turned(subject_yaw, dt);
    lemma_sin_cos_bounds(t.yaw);
    lemma_sin_cos_bounds(t.pitch);
    let sy = sin_micro(t.yaw);
    let cy = cos_micro(t.yaw);
    let sp = sin_micro(t.pitch);
    let cp = cos_micro(t.pitch);
    let d = t.distance;
    assert(magnitude(d * sy) <= w * m && magnitude(d * sp) <= w * m && magnitude(d * cy * cp) <= w
        * (m * m)) by (nonlinear_arith)
        requires
            -w <= d <= w,
            -m <= sy <= m,
            -m <= sp <= m,
            -m <= cy <= m,
            -m <= cp <= m,
            m == 1_000_000,
            w >= 0,
    {
        assert(magnitude(d * cy) <= w * m);
        assert(magnitude((d * cy) * cp) <= (w * m) * m);
    }
    lemma_quot_le(d * sy, m, w);
    lemma_quot_le(d * sp, m, w);
    lemma_quot_le(d * cy * cp, m * m, w);
}

/// While a tick is no longer than half a second, chasing leaves the yaw on
/// the same side of its target and no farther from it.
pub proof fn lemma_turn_closes(s: ObserverModel, subject_yaw: int, dt: nat)
    requires
        FOLLOW_RATE * dt <= MICRO,
    ensures
        ({
            let before = signed_turn(subject_yaw - s.yaw);
            let after = signed_turn(subject_yaw - s.turned(subject_yaw, dt).yaw);
            &&& before >= 0 ==> 0 <= after <= before
            &&& before <= 0 ==> before <= after <= 0
        }),
{
    let m = MICRO as int;
    let f = crate::trig::FULL_TURN as int;
    let gap = signed_turn(subject_yaw - s.yaw);
    let gain = quot(gap * FOLLOW_RATE * dt, m);
    let rate = FOLLOW_RATE * dt;
    assert(gap * FOLLOW_RATE * dt == gap * rate) by (nonlinear_arith)
        requires
            rate == FOLLOW_RATE * dt,
    ;
    assert(magnitude(gap * rate) <= magnitude(gap) * m) by (nonlinear_arith)
        requires
            0 <= rate <= m,
    ;
    lemma_quot_le(gap * rate, m, magnitude(gap));
    crate::fixed::lemma_quot_bounds(gap * rate, m);
    assert(gap >= 0 ==> gap * rate >= 0) by (nonlinear_arith)
        requires
            rate >= 0,
    ;
    assert(gap <= 0 ==> gap * rate <= 0) by (nonlinear_arith)
        requires
            rate >= 0,
    ;
    // The turn still to make differs from `gap - gain` by whole turns.
    let d = subject_yaw - s.yaw;
    assert((d - gap) % f == 0);
    assert(((d - gain) - (gap - gain)) % f == 0);
    crate::geometry::lemma_signed_turn_unique(d - gain, gap - gain);
}

/// Swinging the observer by hand leaves the pitch within its limits whenever
/// it moves it, and never carries a pitch within the limits out of them.
pub proof fn lemma_orbit_limits_pitch(s: ObserverModel, orbit: Orbit, dt: nat)
    ensures
        orbit.up || orbit.down ==> -PITCH_LIMIT <= s.orbited(orbit, dt).pitch <= PITCH_LIMIT,
        -PITCH_LIMIT <= s.pitch <= PITCH_LIMIT ==> -PITCH_LIMIT <= s.orbited(orbit, dt).pitch
            <= PITCH_LIMIT,
{
}

/// One coordinate of the sphere's point: `distance` times one wave.
fn reach(distance: i64, wave: i64) -> (r: i128)
    requires
        -MICRO <= wave <= MICRO,
    ensures
        r == quot(distance * wave, MICRO as int),
        -0x8000_0000_0000_0000 <= r <= 0x8000_0000_0000_0000,
{
    let ghost m = MICRO as int;
    assert(-0x8000_0000_0000_0000 * m <= distance * wave <= 0x8000_0000_0000_0000 * m)
        by (nonlinear_arith)
        requires
            -0x8000_0000_0000_0000 <= distance <= 0x7fff_ffff_ffff_ffff,
            -m <= wave <= m,
            m == 1_000_000,
    ;
    proof {
        lemma_quot_le(distance * wave, m, 0x8000_0000_0000_0000);
    }
    ((distance as i128) * (wave as i128)) / (MICRO as i128)
}

/// One coordinate of the sphere's point: `distance` times two waves.
fn reach_twice(distance: i64, first: i64, second: i64) -> (r: i128)
    requires
        -MICRO <= first <= MICRO,
        -MICRO <= second <= MICRO,
    ensures
        r == quot(distance * first * second, MICRO * MICRO),
        -0x8000_0000_0000_0000 <= r <= 0x8000_0000_0000_0000,
{
    let ghost m = MICRO as int;
    assert(-0x8000_0000_0000_0000 * m <= distance * first <= 0x8000_0000_0000_0000 * m)
        by (nonlinear_arith)
        requires
            -0x8000_0000_0000_0000 <= distance <= 0x7fff_ffff_ffff_ffff,
            -m <= first <= m,
            m == 1_000_000,
    ;
    let df: i128 = (distance as i128) * (first as i128);
    assert(-0x8000_0000_0000_0000 * (m * m) <= df * second <= 0x8000_0000_0000_0000 * (m * m))
        by (nonlinear_arith)
        requires
            -0x8000_0000_0000_0000 * m <= df <= 0x8000_0000_0000_0000 * m,
            -m <= second <= m,
            m == 1_000_000,
    ;
    proof {
        lemma_quot_le(df * second, m * m, 0x8000_0000_0000_0000);
    }
    (df * (second as i128)) / 1_000_000_000_000
}

/// One coordinate eased toward its target.
fn ease(from: i64, to: i64) -> (r: i64)
    ensures
        r == eased(from as int, to as int),
{
    proof {
        lemma_eased_between(from as int, to as int);
    }
    (from as i128 + (to as i128 - from as i128) / (EASE_PARTS as i128)) as i64
}

impl ObserverState {
    /// The observer at its starting distance, level, looking along the
    /// world's alignment.
    pub fn new() -> (s: ObserverState)
        ensures
            s == (ObserverState { distance: START_DISTANCE, yaw: 0, pitch: 0, target_yaw: 0 }),
    {
        ObserverState { distance: START_DISTANCE, yaw: 0, pitch: 0, target_yaw: 0 }
    }

    /// Swings the observer by hand for `dt` microseconds. The yaw is an
    /// accumulator and is not wrapped; the one input this cannot serve is a
    /// yaw that leaves the range of an `i64`.
    pub fn orbit(&mut self, orbit: Orbit, dt: u32)
        requires
            fits_i64(old(self)@.orbited(orbit, dt as nat).yaw),
        ensures
            final(self)@ == old(self)@.orbited(orbit, dt as nat),
    {
        let step: i128 = (ORBIT_RATE as i128) * (dt as i128);
        assert(step == 2 * dt);
        let mut yaw: i128 = self.yaw as i128;
        if orbit.left {
            yaw = yaw - step;
        }
        if orbit.right {
            yaw = yaw + step;
        }
        let mut pitch: i128 = self.pitch as i128;
        if orbit.up {
            pitch = pitch + step;
            if pitch > PITCH_LIMIT as i128 {
                pitch = PITCH_LIMIT as i128;
            } else if pitch < -(PITCH_LIMIT as i128) {
                pitch = -(PITCH_LIMIT as i128);
            }
        }
        if orbit.down {
            pitch = pitch - step;
            if pitch > PITCH_LIMIT as i128 {
                pitch = PITCH_LIMIT as i128;
            } else if pitch < -(PITCH_LIMIT as i128) {
                pitch = -(PITCH_LIMIT as i128);
            }
        }
        self.yaw = yaw as i64;
        self.pitch = pitch as i64;
    }

    /// Lets the yaw chase `subject_yaw` for `dt` microseconds. The one input
    /// this cannot serve is a yaw that leaves the range of an `i64`.
    pub fn turn_toward(&mut self, subject_yaw: i64, dt: u32)
        requires
            fits_i64(old(self)@.turned(subject_yaw as int, dt as nat).yaw),
        ensures
            final(self)@ == old(self)@.turned(subject_yaw as int, dt as nat),
    {
        let gap: i128 = shortest_turn(self.yaw, subject_yaw) as i128;
        assert(-3_141_592 * 2 * 0xffff_ffff <= gap * FOLLOW_RATE * dt <= 3_141_592 * 2 * 0xffff_ffff)
            by (nonlinear_arith)
            requires
                -3_141_592 <= gap <= 3_141_592,
                0 <= dt <= 0xffff_ffff,
        ;
        let gain: i128 = (gap * (FOLLOW_RATE as i128) * (dt as i128)) / (MICRO as i128);
        self.target_yaw = subject_yaw;
        self.yaw = (self.yaw as i128 + gain) as i64;
    }

    /// Computes where the observer wants to be when the vehicle is at
    /// `subject`. The one input this cannot serve is a target that leaves the
    /// range of an `i64`.
    pub fn target(&self, subject: Vec3) -> (t: Vec3)
        requires
            self@.target(subject@).fits(),
        ensures
            t@ == self@.target(subject@),
    {
        let sy = sin(self.yaw);
        let cy = cos(self.yaw);
        let sp = sin(self.pitch);
        let cp = cos(self.pitch);
        let x: i128 = subject.x as i128 + reach(self.distance, sy);
        let y: i128 = subject.y as i128 + reach(self.distance, sp) + RISE as i128;
        let z: i128 = subject.z as i128 + reach_twice(self.distance, cy, cp);
        Vec3 { x: x as i64, y: y as i64, z: z as i64 }
    }

    /// Runs the observer for one tick of `dt` microseconds: the yaw chases
    /// the vehicle's yaw, and the observer eases from `camera` toward its
    /// target position, which is returned; the host then turns the observer
    /// to face the vehicle. With no vehicle nothing changes and `camera` is
    /// returned as it is.
    pub fn follow(&mut self, subject: Option<&VehiclePose>, camera: Vec3, dt: u32) -> (moved: Vec3)
        requires
            subject matches Some(pose) ==> fits_i64(
                old(self)@.turned(pose.frame@.yaw(), dt as nat).yaw,
            ) && old(self)@.turned(pose.frame@.yaw(), dt as nat).target(pose.position@).fits(),
        ensures
            match subject {
                Some(pose) => final(self)@ == old(self)@.turned(pose.frame@.yaw(), dt as nat)
                    && moved@ == final(self)@.approach(pose.position@, camera@),
                None => *final(self) == *old(self) && moved == camera,
            },
    {
        match subject {
            Some(pose) => {
                let yaw = pose.frame.yaw();
                self.turn_toward(yaw, dt);
                let t = self.target(pose.position);
                Vec3 { x: ease(camera.x, t.x), y: ease(camera.y, t.y), z: ease(camera.z, t.z) }
            },
            None => camera,
        }
    }
}

} // verus!
