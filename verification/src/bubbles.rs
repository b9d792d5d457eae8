//! The bubbles that rise from the vehicle while its tank floods: an emitter
//! that releases them at a steady interval, the shape of a new bubble, and
//! its rise toward the surface.
use vstd::math::min;
use vstd::prelude::*;
use crate::ballast::{BallastState, LEVEL_FULL};
use crate::chance::sample;
use crate::fixed::{MICRO, WORLD_LIMIT, fits_i64, quot};
use crate::kinematics::VehiclePose;
use crate::vector::{Vec3, Vector};

verus! {

/// One bubble is released every 0.08 seconds.
pub const SPAWN_INTERVAL: u64 = 80_000;

/// Bubbles rise at 1.7 metres per second: 17 micrometres every 10
/// microseconds.
pub const RISE_PER_TEN_MICROS: i64 = 17;

/// Bubbles are released 0.7 metres below the vehicle.
pub const RELEASE_DROP: i64 = 700_000;

/// The smallest bubble's radius: 0.08 metres.
pub const RADIUS_BASE: i64 = 80_000;

/// The shortest bubble's lifetime: one second.
pub const LIFETIME_BASE: u64 = 1_000_000;

/// How many bubbles a timer that has reached `timer` microseconds releases:
/// one for each whole interval that it has passed.
pub open spec fn bursts(timer: int) -> int {
    if timer <= 0 {
        0
    } else {
        (timer - 1) / (SPAWN_INTERVAL as int)
    }
}

/// Whether the vehicle releases bubbles: its vents are open, it is below the
/// surface, and its tank is not yet full.
pub open spec fn releasing(venting: bool, height: int, fill_level: int) -> bool {
    venting && height < 0 && fill_level < LEVEL_FULL
}

/// The emitter's timer after a tick of `dt` microseconds, and the number of
/// bubbles released in it. With the vents shut the timer is cleared; with
/// the vents open and no vehicle it is left alone; with a vehicle that is
/// not releasing it is cleared; otherwise it runs, and gives up one interval
/// for each bubble.
pub open spec fn polled(timer: int, venting: bool, vehicle: Option<(int, int)>, dt: nat) -> (
    int,
    int,
) {
    if !venting {
        (0, 0)
    } else {
        match vehicle {
            None => (timer, 0),
            Some((height, fill_level)) => if releasing(venting, height, fill_level) {
                let t = timer + dt;
                (t - bursts(t) * SPAWN_INTERVAL, bursts(t))
            } else {
                (0, 0)
            },
        }
    }
}

/// A running timer never holds more than one interval, and releases what it
/// gives up.
pub proof fn lemma_bursts(timer: int)
    requires
        timer >= 0,
    ensures
        bursts(timer) >= 0,
        0 <= timer - bursts(timer) * SPAWN_INTERVAL <= SPAWN_INTERVAL,
        timer > SPAWN_INTERVAL ==> bursts(timer) >= 1,
        timer <= SPAWN_INTERVAL ==> bursts(timer) == 0,
{
    if timer > 0 {
        let i = SPAWN_INTERVAL as int;
        vstd::arithmetic::div_mod::lemma_fundamental_div_mod(timer - 1, i);
        assert(i * ((timer - 1) / i) == ((timer - 1) / i) * i) by (nonlinear_arith);
    }
}

/// The emitter's timer. It never holds more than one interval.
#[derive(Clone, Copy, Debug)]
pub struct BubbleEmitter {
    timer: u64,
}

impl View for BubbleEmitter {
    type V = int;

    closed spec fn view(&self) -> int {
        self.timer as int
    }
}

impl BubbleEmitter {
    #[verifier::type_invariant]
    spec fn inv(self) -> bool {
        self.timer <= SPAWN_INTERVAL
    }

    /// An emitter with its timer at zero.
    pub fn new() -> (e: BubbleEmitter)
        ensures
            e@ == 0,
    {
        BubbleEmitter { timer: 0 }
    }

    /// The microseconds on the timer.
    pub fn timer(&self) -> (t: u64)
        ensures
            t == self@,
            t <= SPAWN_INTERVAL,
    {
        proof {
            use_type_invariant(self);
        }
        self.timer
    }

    /// Runs the emitter for one tick of `dt` microseconds and returns the
    /// number of bubbles to release.
    pub fn poll(&mut self, ballast: &BallastState, vehicle: Option<&VehiclePose>, dt: u32) -> (count:
        u32)
        ensures
            (final(self)@, count as int) == polled(
                old(self)@,
                ballast@.vents_open,
                match vehicle {
                    Some(pose) => Some((pose.position.y as int, ballast@.fill_level)),
                    None => None,
                },
                dt as nat,
            ),
    {
        proof {
            use_type_invariant(&*self);
        }
        if !ballast.vents_open() {
            self.timer = 0;
            return 0;
        }
        match vehicle {
            None => 0,
            Some(pose) => {
                if pose.position.y < 0 && ballast.fill_level() < LEVEL_FULL {
                    let t: u64 = self.timer + dt as u64;
                    proof {
                        lemma_bursts(t as int);
                    }
                    if t == 0 {
                        0
                    } else {
                        let count: u64 = (t - 1) / SPAWN_INTERVAL;
                        assert(count * SPAWN_INTERVAL <= t) by (nonlinear_arith)
                            requires
                                count == (t - 1) / (SPAWN_INTERVAL as int),
                                t >= 1,
                                SPAWN_INTERVAL > 0,
                        ;
                        self.timer = t - count * SPAWN_INTERVAL;
                        count as u32
                    }
                } else {
                    self.timer = 0;
                    0
                }
            },
        }
    }
}

/// A new bubble: where it is released, how large it is, and how long it
/// lasts.
#[derive(Clone, Copy, Debug, PartialEq, Eq, Structural)]
pub struct Bubble {
    pub position: Vec3,
    pub radius: i64,
    pub lifetime: u64,
}

/// The mathematical form of a new bubble.
pub struct BubbleModel {
    pub position: Vector,
    pub radius: int,
    pub lifetime: int,
}

impl View for Bubble {
    type V = BubbleModel;

    open spec fn view(&self) -> BubbleModel {
        BubbleModel {
            position: self.position@,
            radius: self.radius as int,
            lifetime: self.lifetime as int,
        }
    }
}

/// The bubble made of three chance samples, each in millionths. It is
/// released 0.7 metres below `origin`, up to a quarter of a metre to either
/// side along each horizontal axis as `east` and `south` say; `size` sets
/// its radius, from 0.08 metres up to 0.14, and its lifetime, from one
/// second up to one and a half.
pub open spec fn shaped(origin: Vector, size: int, east: int, south: int) -> BubbleModel {
    BubbleModel {
        position: Vector {
            x: origin.x + quot(east - 500_000, 2),
            y: origin.y - RELEASE_DROP,
            z: origin.z + quot(south - 500_000, 2),
        },
        radius: RADIUS_BASE + quot(6 * size, 100),
        lifetime: LIFETIME_BASE + size / 2,
    }
}

/// Whether every bubble released from `origin` has a representable
/// position.
pub open spec fn release_room(origin: Vector) -> bool {
    &&& fits_i64(origin.x - 250_000)
    &&& fits_i64(origin.x + 250_000)
    &&& fits_i64(origin.y - RELEASE_DROP)
    &&& fits_i64(origin.z - 250_000)
    &&& fits_i64(origin.z + 250_000)
}

/// Anywhere within the world limit there is room to release a bubble, and
/// room for a bubble to rise.
pub proof fn lemma_bubbles_within_world(origin: Vector, height: int, dt: nat)
    requires
        origin.within(WORLD_LIMIT as int),
        -WORLD_LIMIT <= height <= WORLD_LIMIT,
        dt <= u32::MAX,
    ensures
        release_room(origin),
        fits_i64(risen(height, dt)),
{
}

/// Shapes a new bubble from three chance samples, each in millionths. The
/// one input this cannot serve is a release point that leaves the range of
/// an `i64`.
pub fn bubble_from(origin: Vec3, size: u32, east: u32, south: u32) -> (b: Bubble)
    requires
        shaped(origin@, size as int, east as int, south as int).position.fits(),
    ensures
        b@ == shaped(origin@, size as int, east as int, south as int),
{
    let x: i128 = origin.x as i128 + (east as i128 - 500_000) / 2;
    let y: i128 = origin.y as i128 - RELEASE_DROP as i128;
    let z: i128 = origin.z as i128 + (south as i128 - 500_000) / 2;
    Bubble {
        position: Vec3 { x: x as i64, y: y as i64, z: z as i64 },
        radius: RADIUS_BASE + (6 * (size as i64)) / 100,
        lifetime: LIFETIME_BASE + (size as u64) / 2,
    }
}

/// Releases a bubble shaped by chance: one sample for its size and one for
/// each horizontal axis of its place.
pub fn release_bubble(origin: Vec3) -> (b: Bubble)
    requires
        release_room(origin@),
    ensures
        exists|size: int, east: int, south: int|
            0 <= size < MICRO && 0 <= east < MICRO && 0 <= south < MICRO && b@ == #[trigger] shaped(
                origin@,
                size,
                east,
                south,
            ),
        RADIUS_BASE <= b.radius < RADIUS_BASE + 60_000,
        LIFETIME_BASE <= b.lifetime < LIFETIME_BASE + 500_000,
        b.position.y == origin.y - RELEASE_DROP,
        origin.x - 250_000 <= b.position.x < origin.x + 250_000,
        origin.z - 250_000 <= b.position.z < origin.z + 250_000,
{
    let size = sample();
    let east = sample();
    let south = sample();
    bubble_from(origin, size, east, south)
}

/// The height of a bubble after rising for `dt` microseconds.
pub open spec fn risen(height: int, dt: nat) -> int {
    height + quot(RISE_PER_TEN_MICROS * dt, 10)
}

/// The age of a bubble after a tick of `dt` microseconds in which it rose to
/// `height`: a bubble that has reached the surface does not age; another
/// ages by `dt`, up to its lifetime.
pub open spec fn aged(age: int, lifetime: int, height: int, dt: nat) -> int {
    if height >= 0 {
        age
    } else {
        min(lifetime, age + dt)
    }
}

/// Whether a bubble is gone: it has reached the surface, or its lifetime.
pub open spec fn burst(age: int, lifetime: int, height: int) -> bool {
    height >= 0 || age >= lifetime
}

/// Lets a bubble of the given age and lifetime rise from `height` for `dt`
/// microseconds. Returns its new height, its new age, and whether it is
/// gone. The one input this cannot serve is a height that leaves the range
/// of an `i64`.
pub fn rise(height: i64, age: u64, lifetime: u64, dt: u32) -> (r: (i64, u64, bool))
    requires
        fits_i64(risen(height as int, dt as nat)),
        age <= lifetime,
    ensures
        r.0 == risen(height as int, dt as nat),
        r.1 == aged(age as int, lifetime as int, r.0 as int, dt as nat),
        r.2 == burst(r.1 as int, lifetime as int, r.0 as int),
        r.1 <= lifetime,
{
    let up: i64 = (RISE_PER_TEN_MICROS * (dt as i64)) / 10;
    let h: i64 = height + up;
    if h >= 0 {
        (h, age, true)
    } else {
        let a: u64 = if dt as u64 >= lifetime - age {
            lifetime
        } else {
            age + dt as u64
        };
        (h, a, a >= lifetime)
    }
}

} // verus!
