//! Autonomous steering: the wandering of a mobile entity. Each entity holds
//! a heading for a while, then picks a new one from smooth periodic functions
//! of its timer and its own position; it sways sideways as it goes, and it
//! is kept below the surface, above a floor, and near the origin.
use vstd::prelude::*;
use crate::fixed::{
    MICRO, WORLD_LIMIT, isqrt, lemma_quot_bounds, lemma_quot_le, lemma_sqrt_floor_dominates,
    magnitude, quot, sqrt_floor,
};
use crate::trig::{cos_micro, cos_wide, lemma_sin_cos_bounds, sin_micro, sin_wide};
use crate::chance::sample;
use crate::vector::{Vec3, Vector, lemma_square_of_magnitude};

verus! {

/// Entities farther than 400 metres from the origin are drawn back in.
pub const MAX_RADIUS: i64 = 400_000_000;

/// They are drawn back at 3 metres per second: 3 micrometres a microsecond.
pub const RETURN_RATE: i64 = 3;

/// Entities do not go deeper than 25 metres.
pub const FLOOR: i64 = -25_000_000;

/// A new interval is 1.5 seconds, give or take two.
pub const INTERVAL_BASE: i64 = 1_500_000;

/// The fastest an entity may be for its movement to be representable
/// anywhere in the world: a million metres per second.
pub const SPEED_LIMIT: i64 = 1_000_000_000_000;

/// The largest component for which a vector can be scaled to unit length.
pub const UNIT_LIMIT: i64 = 1_000_000_000_000;

/// The mathematical steering state of one entity.
pub struct SteeringModel {
    /// The heading, a vector of length one in millionths.
    pub direction: Vector,
    /// Micrometres per second along the heading.
    pub speed: int,
    /// Microseconds since the heading last changed.
    pub change_timer: int,
    /// The heading changes once the timer exceeds this many microseconds.
    pub change_interval: int,
}

/// The vector from which a new heading is made: smooth periodic functions of
/// the timer and the position, weighted so that the entity moves sideways
/// more than up and down.
pub open spec fn candidate(timer: int, position: Vector) -> Vector {
    Vector {
        x: 2 * sin_micro(quot(5 * timer + position.x, 10)) - MICRO,
        y: quot(cos_micro(quot(3 * timer + 2 * position.y, 10)), 2) - 250_000,
        z: 2 * sin_micro(quot(7 * timer + position.z, 10)) - MICRO,
    }
}

/// The length of `v` in millionths of its own unit, rounded down.
pub open spec fn fine_length(v: Vector) -> nat {
    sqrt_floor((v.length_squared() * MICRO * MICRO) as nat)
}

/// `v` scaled to length one, for a `v` that is not zero.
pub open spec fn unit(v: Vector) -> Vector {
    let l = fine_length(v) as int;
    Vector {
        x: quot(v.x * MICRO * MICRO, l),
        y: quot(v.y * MICRO * MICRO, l),
        z: quot(v.z * MICRO * MICRO, l),
    }
}

/// The heading taken when a change is due: the candidate scaled to length
/// one, or the present heading should the candidate vanish.
pub open spec fn heading_for(timer: int, position: Vector, present: Vector) -> Vector {
    let c = candidate(timer, position);
    if c.x == 0 && c.y == 0 && c.z == 0 {
        present
    } else {
        unit(c)
    }
}

/// The interval drawn when a change is due, between minus half a second and
/// three and a half seconds.
pub open spec fn interval_for(position: Vector) -> int {
    INTERVAL_BASE + 2 * sin_micro(quot(position.x, 100))
}

/// The sideways sway over `dt` microseconds: 0.3 metres per second at most,
/// along each horizontal axis.
pub open spec fn sway(timer: int, position: Vector, dt: nat) -> Vector {
    Vector {
        x: quot(3 * sin_micro(quot(20 * timer + position.x, 10)) * dt, 10 * MICRO),
        y: 0,
        z: quot(3 * cos_micro(quot(15 * timer + position.z, 10)) * dt, 10 * MICRO),
    }
}

/// The way made along the heading over `dt` microseconds.
pub open spec fn stride(direction: Vector, speed: int, dt: nat) -> Vector {
    Vector {
        x: quot(direction.x * speed * dt, MICRO * MICRO),
        y: quot(direction.y * speed * dt, MICRO * MICRO),
        z: quot(direction.z * speed * dt, MICRO * MICRO),
    }
}

/// Whether a position is farther from the origin than the maximum radius.
/// The comparison is exact: it is made on the squared distance.
pub open spec fn beyond_radius(position: Vector) -> bool {
    position.length_squared() > MAX_RADIUS * MAX_RADIUS
}

/// The position after the pull toward the origin: beyond the maximum radius
/// it moves toward the origin by the return rate times `dt`; within, it
/// stays.
pub open spec fn drawn_in(position: Vector, dt: nat) -> Vector {
    if beyond_radius(position) {
        let l = position.length() as int;
        Vector {
            x: position.x - quot(position.x * RETURN_RATE * dt, l),
            y: position.y - quot(position.y * RETURN_RATE * dt, l),
            z: position.z - quot(position.z * RETURN_RATE * dt, l),
        }
    } else {
        position
    }
}

impl SteeringModel {
    /// The heading has length one, to within four millionths, and the timer
    /// has not run backwards.
    pub open spec fn wf(self) -> bool {
        self.direction.within_unit() && near_unit(self.direction) && self.change_timer >= 0
    }

    /// The state of a newly made entity, from five chance samples in
    /// millionths. The heading is drawn with each horizontal component
    /// between -1 and 1 and the vertical one between -0.2 and 0.2, and
    /// scaled to length one; should the draw be the zero vector, the heading
    /// is straight along `-z`. The speed is one metre per second plus up to
    /// two; the first interval is two seconds plus up to three.
    pub open spec fn spawned(east: int, up: int, south: int, pace: int, patience: int) -> SteeringModel {
        let c = Vector {
            x: 2 * (east - 500_000),
            y: quot(4 * (up - 500_000), 10),
            z: 2 * (south - 500_000),
        };
        SteeringModel {
            direction: if c.x == 0 && c.y == 0 && c.z == 0 {
                Vector { x: 0, y: 0, z: -MICRO as int }
            } else {
                unit(c)
            },
            speed: MICRO + 2 * pace,
            change_timer: 0,
            change_interval: 2 * MICRO + 3 * patience,
        }
    }

    /// The state once the timer has run for `dt` microseconds: if it then
    /// exceeds the interval, a new heading and a new interval are taken and
    /// the timer starts again.
    pub open spec fn retimed(self, position: Vector, dt: nat) -> SteeringModel {
        let t = self.change_timer + dt;
        if t > self.change_interval {
            SteeringModel {
                direction: heading_for(t, position, self.direction),
                speed: self.speed,
                change_timer: 0,
                change_interval: interval_for(position),
            }
        } else {
            SteeringModel { change_timer: t, ..self }
        }
    }

    /// The position after this tick's movement, before any containment: the
    /// stride along the heading plus the sway.
    pub open spec fn moved(self, position: Vector, dt: nat) -> Vector {
        let s = self.retimed(position, dt);
        position.plus(stride(s.direction, s.speed, dt)).plus(sway(s.change_timer, position, dt))
    }

    /// The heading with its vertical component turned downward.
    pub open spec fn heading_down(self) -> SteeringModel {
        SteeringModel {
            direction: Vector { y: -magnitude(self.direction.y), ..self.direction },
            ..self
        }
    }

    /// The heading with its vertical component turned upward.
    pub open spec fn heading_up(self) -> SteeringModel {
        SteeringModel {
            direction: Vector { y: magnitude(self.direction.y), ..self.direction },
            ..self
        }
    }

    /// One whole tick for an entity at `position`: the timer and perhaps a
    /// new heading, the movement, then containment. An entity above the
    /// surface is put on it and heads down; one beyond the maximum radius is
    /// drawn toward the origin; one below the floor is put on it and heads
    /// up.
    pub open spec fn step(self, position: Vector, dt: nat) -> (SteeringModel, Vector) {
        let s0 = self.retimed(position, dt);
        let p0 = self.moved(position, dt);
        let (s1, p1) = if p0.y > 0 {
            (s0.heading_down(), Vector { y: 0, ..p0 })
        } else {
            (s0, p0)
        };
        let p2 = drawn_in(p1, dt);
        if p2.y < FLOOR {
            (s1.heading_up(), Vector { y: FLOOR as int, ..p2 })
        } else {
            (s1, p2)
        }
    }
}

/// The candidate's components are at most three in magnitude.
pub proof fn lemma_candidate_bounds(timer: int, position: Vector)
    ensures
        candidate(timer, position).within(3 * MICRO),
{
    lemma_sin_cos_bounds(quot(5 * timer + position.x, 10));
    lemma_sin_cos_bounds(quot(3 * timer + 2 * position.y, 10));
    lemma_sin_cos_bounds(quot(7 * timer + position.z, 10));
}

/// A vector scaled to length one is no longer than one along any axis.
pub proof fn lemma_unit_bounds(v: Vector)
    requires
        v.x != 0 || v.y != 0 || v.z != 0,
    ensures
        unit(v).within_unit(),
        fine_length(v) >= MICRO,
{
    let m = MICRO as int;
    let n = v.length_squared();
    lemma_square_of_magnitude(v.x);
    lemma_square_of_magnitude(v.y);
    lemma_square_of_magnitude(v.z);
    let ax = magnitude(v.x);
    let ay = magnitude(v.y);
    let az = magnitude(v.z);
    assert(ax * ax >= 0 && ay * ay >= 0 && az * az >= 0) by (nonlinear_arith);
    assert(n >= 1) by (nonlinear_arith)
        requires
            n == ax * ax + ay * ay + az * az,
            ax >= 0,
            ay >= 0,
            az >= 0,
            ax > 0 || ay > 0 || az > 0,
    ;
    let big = n * m * m;
    assert(big >= m * m && (ax * m) * (ax * m) <= big && (ay * m) * (ay * m) <= big && (az * m) * (
    az * m) <= big) by (nonlinear_arith)
        requires
            n == ax * ax + ay * ay + az * az,
            n >= 1,
            big == n * m * m,
            m == 1_000_000,
    ;
    lemma_sqrt_floor_dominates(big as nat, m as nat);
    assert(ax * m >= 0 && ay * m >= 0 && az * m >= 0) by (nonlinear_arith)
        requires
            ax >= 0,
            ay >= 0,
            az >= 0,
            m == 1_000_000,
    ;
    lemma_sqrt_floor_dominates(big as nat, (ax * m) as nat);
    lemma_sqrt_floor_dominates(big as nat, (ay * m) as nat);
    lemma_sqrt_floor_dominates(big as nat, (az * m) as nat);
    let l = fine_length(v) as int;
    assert(magnitude(v.x * m * m) == ax * m * m && magnitude(v.y * m * m) == ay * m * m
        && magnitude(v.z * m * m) == az * m * m) by (nonlinear_arith)
        requires
            ax == magnitude(v.x),
            ay == magnitude(v.y),
            az == magnitude(v.z),
            m == 1_000_000,
    ;
    assert(ax * m * m <= m * l && ay * m * m <= m * l && az * m * m <= m * l) by (nonlinear_arith)
        requires
            ax * m <= l,
            ay * m <= l,
            az * m <= l,
            m == 1_000_000,
    ;
    lemma_quot_le(v.x * m * m, l, m);
    lemma_quot_le(v.y * m * m, l, m);
    lemma_quot_le(v.z * m * m, l, m);
}

/// Whether a vector's length is within four millionths of one.
pub open spec fn near_unit(v: Vector) -> bool {
    (MICRO - 4) * (MICRO - 4) < v.length_squared() < (MICRO + 1) * (MICRO + 1)
}

/// How one scaled component compares with its exact value: its square times
/// the squared length brackets the square of the component times a million
/// squared.
proof fn lemma_component_share(c: int, l: int)
    requires
        l >= 1,
    ensures
        ({
            let u = quot(c * MICRO * MICRO, l);
            let q = magnitude(u);
            &&& u * u == q * q
            &&& q >= 0
            &&& (q * q) * (l * l) <= (c * c) * (MICRO * MICRO * MICRO * MICRO)
            &&& (c * c) * (MICRO * MICRO * MICRO * MICRO) < ((q + 1) * (q + 1)) * (l * l)
        }),
{
    let m = MICRO as int;
    let x = c * m * m;
    let u = quot(x, l);
    let q = magnitude(u);
    let a = magnitude(x);
    lemma_quot_bounds(x, l);
    lemma_square_of_magnitude(u);
    lemma_square_of_magnitude(x);
    assert(a * a == (c * c) * (m * m * m * m)) by (nonlinear_arith)
        requires
            a * a == x * x,
            x == c * m * m,
    ;
    assert((q * q) * (l * l) <= a * a) by (nonlinear_arith)
        requires
            0 <= q * l <= a,
            q >= 0,
            l >= 1,
    ;
    assert(a * a < ((q + 1) * (q + 1)) * (l * l)) by (nonlinear_arith)
        requires
            0 <= a < (q + 1) * l,
            q >= 0,
            l >= 1,
    ;
}

/// A vector scaled to length one has a length within four millionths of
/// one.
pub proof fn lemma_unit_length(v: Vector)
    requires
        v.x != 0 || v.y != 0 || v.z != 0,
    ensures
        near_unit(unit(v)),
{
    let m = MICRO as int;
    let n = v.length_squared();
    let l = fine_length(v) as int;
    lemma_unit_bounds(v);
    lemma_square_of_magnitude(v.x);
    lemma_square_of_magnitude(v.y);
    lemma_square_of_magnitude(v.z);
    assert(n >= 0) by (nonlinear_arith)
        requires
            n == v.x * v.x + v.y * v.y + v.z * v.z,
    ;
    let big = n * m * m;
    assert(big >= 0) by (nonlinear_arith)
        requires
            big == n * m * m,
            n >= 0,
    ;
    crate::fixed::lemma_sqrt_floor_brackets(big as nat);
    lemma_component_share(v.x, l);
    lemma_component_share(v.y, l);
    lemma_component_share(v.z, l);
    let u = unit(v);
    let qx = magnitude(u.x);
    let qy = magnitude(u.y);
    let qz = magnitude(u.z);
    let s = qx * qx + qy * qy + qz * qz;
    assert(u.length_squared() == s);
    let m4 = m * m * m * m;
    let ll = l * l;
    // The squares of the exact components add up to a million squared times `big`.
    assert((v.x * v.x) * m4 + (v.y * v.y) * m4 + (v.z * v.z) * m4 == (m * m) * big)
        by (nonlinear_arith)
        requires
            big == n * m * m,
            n == v.x * v.x + v.y * v.y + v.z * v.z,
            m4 == m * m * m * m,
    ;
    assert(s * ll <= (m * m) * big) by (nonlinear_arith)
        requires
            s == qx * qx + qy * qy + qz * qz,
            (qx * qx) * ll <= (v.x * v.x) * m4,
            (qy * qy) * ll <= (v.y * v.y) * m4,
            (qz * qz) * ll <= (v.z * v.z) * m4,
            (v.x * v.x) * m4 + (v.y * v.y) * m4 + (v.z * v.z) * m4 == (m * m) * big,
    ;
    let t = (qx + 1) * (qx + 1) + (qy + 1) * (qy + 1) + (qz + 1) * (qz + 1);
    assert((m * m) * big < t * ll) by (nonlinear_arith)
        requires
            t == (qx + 1) * (qx + 1) + (qy + 1) * (qy + 1) + (qz + 1) * (qz + 1),
            (v.x * v.x) * m4 < ((qx + 1) * (qx + 1)) * ll,
            (v.y * v.y) * m4 < ((qy + 1) * (qy + 1)) * ll,
            (v.z * v.z) * m4 < ((qz + 1) * (qz + 1)) * ll,
            (v.x * v.x) * m4 + (v.y * v.y) * m4 + (v.z * v.z) * m4 == (m * m) * big,
    ;
    // Above: s * l^2 <= m^2 * big < m^2 * (l + 1)^2, and l >= m.
    assert(s < (m + 1) * (m + 1)) by (nonlinear_arith)
        requires
            s * ll <= (m * m) * big,
            big < (l + 1) * (l + 1),
            ll == l * l,
            l >= m,
            m == 1_000_000,
            s >= 0,
    {
        assert((m * m) * big < (m * m) * ((l + 1) * (l + 1)));
        assert((m + 1) * l >= m * (l + 1));
        assert(((m + 1) * l) * ((m + 1) * l) >= (m * (l + 1)) * (m * (l + 1)));
        assert(((m + 1) * (m + 1)) * (l * l) >= (m * m) * ((l + 1) * (l + 1)));
    }
    // Below: t * l^2 > m^2 * big >= m^2 * l^2, so t > m^2.
    assert(t > m * m) by (nonlinear_arith)
        requires
            (m * m) * big < t * ll,
            ll <= big,
            ll == l * l,
            l >= 1,
            m == 1_000_000,
    {
        assert((m * m) * ll <= (m * m) * big);
        assert((m * m) * ll < t * ll);
    }
    assert(t == s + 2 * (qx + qy + qz) + 3) by (nonlinear_arith)
        requires
            t == (qx + 1) * (qx + 1) + (qy + 1) * (qy + 1) + (qz + 1) * (qz + 1),
            s == qx * qx + qy * qy + qz * qz,
    ;
    assert((m - 4) * (m - 4) == m * m - 8 * m + 16 && (m + 1) * (m + 1) == m * m + 2 * m + 1)
        by (nonlinear_arith);
}

/// A tick keeps the heading at length one, leaves the speed alone, and keeps
/// the timer from running backwards.
pub proof fn lemma_step_preserves_wf(s: SteeringModel, position: Vector, dt: nat)
    requires
        s.wf(),
    ensures
        s.step(position, dt).0.wf(),
        s.step(position, dt).0.speed == s.speed,
        s.step(position, dt).0.change_timer <= s.change_timer + dt,
{
    let t = s.change_timer + dt;
    let c = candidate(t, position);
    if c.x != 0 || c.y != 0 || c.z != 0 {
        lemma_unit_bounds(c);
        lemma_unit_length(c);
    }
    lemma_turned_length(s.retimed(position, dt).direction);
}

/// Turning the vertical component of a vector up or down does not change
/// its length.
pub proof fn lemma_turned_length(d: Vector)
    ensures
        (Vector { y: magnitude(d.y), ..d }).length_squared() == d.length_squared(),
        (Vector { y: -magnitude(d.y), ..d }).length_squared() == d.length_squared(),
{
    lemma_square_of_magnitude(d.y);
    assert((-magnitude(d.y)) * (-magnitude(d.y)) == magnitude(d.y) * magnitude(d.y))
        by (nonlinear_arith);
}

/// After a tick the entity is neither above the surface nor below the floor,
/// unless the pull toward the origin carried it over the surface.
pub proof fn lemma_step_contains(s: SteeringModel, position: Vector, dt: nat)
    ensures
        s.step(position, dt).1.y >= FLOOR,
        !beyond_radius(
            Vector { y: if s.moved(position, dt).y > 0 {
                0
            } else {
                s.moved(position, dt).y
            }, ..s.moved(position, dt) },
        ) ==> s.step(position, dt).1.y <= 0,
{
}

/// In one tick an entity no faster than the speed limit moves, before
/// containment, by less than 4301 times the speed limit along any axis.
pub proof fn lemma_moved_near(s: SteeringModel, position: Vector, dt: nat)
    requires
        s.wf(),
        -SPEED_LIMIT <= s.speed <= SPEED_LIMIT,
        dt <= u32::MAX,
    ensures
        s.moved(position, dt).minus(position).within(4301 * SPEED_LIMIT),
{
    let r = s.retimed(position, dt);
    let c = candidate(s.change_timer + dt, position);
    if c.x != 0 || c.y != 0 || c.z != 0 {
        lemma_unit_bounds(c);
    }
    assert(r.direction.within_unit());
    assert(r.speed == s.speed);
    lemma_stride_along(r.direction.x, r.speed, dt);
    lemma_stride_along(r.direction.y, r.speed, dt);
    lemma_stride_along(r.direction.z, r.speed, dt);
    let ax = quot(20 * r.change_timer + position.x, 10);
    let az = quot(15 * r.change_timer + position.z, 10);
    lemma_sin_cos_bounds(ax);
    lemma_sin_cos_bounds(az);
    lemma_sway_along(sin_micro(ax), dt);
    lemma_sway_along(cos_micro(az), dt);
}

/// An entity within the world limit, no faster than the speed limit, stays
/// representable through a tick.
pub proof fn lemma_steer_within_world(s: SteeringModel, position: Vector, dt: nat)
    requires
        s.wf(),
        position.within(WORLD_LIMIT as int),
        -SPEED_LIMIT <= s.speed <= SPEED_LIMIT,
        dt <= u32::MAX,
    ensures
        s.moved(position, dt).fits(),
        s.step(position, dt).1.fits(),
{
    lemma_moved_near(s, position, dt);
    let p0 = s.moved(position, dt);
    assert(p0.within(WORLD_LIMIT + 4301 * SPEED_LIMIT));
    let p1 = Vector { y: if p0.y > 0 {
        0
    } else {
        p0.y
    }, ..p0 };
    let p2 = drawn_in(p1, dt);
    if beyond_radius(p1) {
        lemma_pull_bounded(p1, dt);
    }
    assert(p2.within(WORLD_LIMIT + 4301 * SPEED_LIMIT + RETURN_RATE * 0xffff_ffff));
    let end = s.step(position, dt).1;
    assert(end.x == p2.x && end.z == p2.z);
    assert(end.y == p2.y || end.y == FLOOR);
}

/// The way made along one axis in one tick is at most 4300 times the speed
/// limit.
proof fn lemma_stride_along(direction: int, speed: int, dt: nat)
    requires
        -MICRO <= direction <= MICRO,
        -SPEED_LIMIT <= speed <= SPEED_LIMIT,
        dt <= u32::MAX,
    ensures
        magnitude(quot(direction * speed * dt, MICRO * MICRO)) <= 4300 * SPEED_LIMIT,
{
    let m = MICRO as int;
    let l = SPEED_LIMIT as int;
    assert(magnitude(direction * speed * dt) <= (4300 * l) * (m * m)) by (nonlinear_arith)
        requires
            -m <= direction <= m,
            -l <= speed <= l,
            0 <= dt <= 0xffff_ffff,
            m == 1_000_000,
            l >= 0,
    {
        assert(magnitude(direction * speed) <= m * l);
        assert(magnitude(direction * speed * dt) <= (m * l) * 0xffff_ffff);
    }
    lemma_quot_le(direction * speed * dt, m * m, 4300 * l);
}

/// The sway along one axis in one tick is less than thirteen hundred
/// metres.
proof fn lemma_sway_along(wave: int, dt: nat)
    requires
        -MICRO <= wave <= MICRO,
        dt <= u32::MAX,
    ensures
        magnitude(quot(3 * wave * dt, 10 * MICRO)) <= 1_300_000_000,
{
    let m = MICRO as int;
    assert(magnitude(3 * wave * dt) <= 1_300_000_000 * (10 * m)) by (nonlinear_arith)
        requires
            -m <= wave <= m,
            0 <= dt <= 0xffff_ffff,
            m == 1_000_000,
    ;
    lemma_quot_le(3 * wave * dt, 10 * m, 1_300_000_000);
}

/// The pull toward the origin moves no coordinate by more than the return
/// rate times the time.
pub proof fn lemma_pull_bounded(position: Vector, dt: nat)
    requires
        beyond_radius(position),
    ensures
        magnitude(drawn_in(position, dt).x - position.x) <= RETURN_RATE * dt,
        magnitude(drawn_in(position, dt).y - position.y) <= RETURN_RATE * dt,
        magnitude(drawn_in(position, dt).z - position.z) <= RETURN_RATE * dt,
{
    let l = position.length() as int;
    let n = position.length_squared();
    assert(n >= 0) by (nonlinear_arith)
        requires
            n == position.x * position.x + position.y * position.y + position.z * position.z,
    ;
    lemma_sqrt_floor_dominates(n as nat, MAX_RADIUS as nat);
    lemma_square_of_magnitude(position.x);
    lemma_square_of_magnitude(position.y);
    lemma_square_of_magnitude(position.z);
    let ax = magnitude(position.x);
    let ay = magnitude(position.y);
    let az = magnitude(position.z);
    assert(ax * ax <= n && ay * ay <= n && az * az <= n) by (nonlinear_arith)
        requires
            n == ax * ax + ay * ay + az * az,
    ;
    lemma_sqrt_floor_dominates(n as nat, ax as nat);
    lemma_sqrt_floor_dominates(n as nat, ay as nat);
    lemma_sqrt_floor_dominates(n as nat, az as nat);
    lemma_pull_share(position.x, l, dt);
    lemma_pull_share(position.y, l, dt);
    lemma_pull_share(position.z, l, dt);
}

/// One coordinate's share of the pull, for a coordinate no longer than the
/// distance.
proof fn lemma_pull_share(c: int, l: int, dt: nat)
    requires
        l >= 1,
        magnitude(c) <= l,
    ensures
        magnitude(quot(c * RETURN_RATE * dt, l)) <= RETURN_RATE * dt,
{
    let pull = RETURN_RATE * dt;
    assert(c * RETURN_RATE * dt == c * pull) by (nonlinear_arith)
        requires
            pull == RETURN_RATE * dt,
    ;
    assert(magnitude(c * pull) <= pull * l) by (nonlinear_arith)
        requires
            magnitude(c) <= l,
            pull >= 0,
    ;
    lemma_quot_le(c * pull, l, pull);
}

/// A pull that is no longer than the distance to the origin moves no
/// coordinate away from zero or across it, so it brings the entity no
/// farther from the origin.
pub proof fn lemma_pull_shortens(position: Vector, dt: nat)
    requires
        beyond_radius(position),
        RETURN_RATE * dt <= position.length(),
    ensures
        magnitude(drawn_in(position, dt).x) <= magnitude(position.x),
        magnitude(drawn_in(position, dt).y) <= magnitude(position.y),
        magnitude(drawn_in(position, dt).z) <= magnitude(position.z),
        drawn_in(position, dt).length_squared() <= position.length_squared(),
{
    let l = position.length() as int;
    let n = position.length_squared();
    assert(n >= 0) by (nonlinear_arith)
        requires
            n == position.x * position.x + position.y * position.y + position.z * position.z,
    ;
    lemma_sqrt_floor_dominates(n as nat, MAX_RADIUS as nat);
    lemma_pull_along(position.x, l, dt);
    lemma_pull_along(position.y, l, dt);
    lemma_pull_along(position.z, l, dt);
}

/// One coordinate under a pull that is no longer than the distance.
proof fn lemma_pull_along(c: int, l: int, dt: nat)
    requires
        l >= 1,
        RETURN_RATE * dt <= l,
    ensures
        magnitude(c - quot(c * RETURN_RATE * dt, l)) <= magnitude(c),
        (c - quot(c * RETURN_RATE * dt, l)) * (c - quot(c * RETURN_RATE * dt, l)) <= c * c,
{
    let pull = RETURN_RATE * dt;
    let k = quot(c * RETURN_RATE * dt, l);
    assert(c * RETURN_RATE * dt == c * pull) by (nonlinear_arith)
        requires
            pull == RETURN_RATE * dt,
    ;
    assert(magnitude(c * pull) <= magnitude(c) * l) by (nonlinear_arith)
        requires
            0 <= pull <= l,
    ;
    lemma_quot_le(c * pull, l, magnitude(c));
    lemma_quot_bounds(c * pull, l);
    assert(c >= 0 ==> c * pull >= 0) by (nonlinear_arith)
        requires
            pull >= 0,
    ;
    assert(c <= 0 ==> c * pull <= 0) by (nonlinear_arith)
        requires
            pull >= 0,
    ;
    let r = c - k;
    assert(r * r <= c * c) by (nonlinear_arith)
        requires
            (0 <= r <= c) || (c <= r <= 0),
    ;
}

/// The steering state of one entity. Its heading is never longer than one
/// along any axis.
#[derive(Clone, Copy, Debug)]
pub struct SteeringState {
    direction: Vec3,
    speed: i64,
    change_timer: i64,
    change_interval: i64,
}

impl View for SteeringState {
    type V = SteeringModel;

    closed spec fn view(&self) -> SteeringModel {
        SteeringModel {
            direction: self.direction@,
            speed: self.speed as int,
            change_timer: self.change_timer as int,
            change_interval: self.change_interval as int,
        }
    }
}

/// The sine, or the cosine, of the phase `(a * timer + b * coordinate) /
/// divisor`.
fn wave(a: i128, timer: i128, b: i128, coordinate: i64, divisor: i128, cosine: bool) -> (r: i64)
    requires
        0 <= a <= 20,
        0 <= b <= 2,
        0 <= timer <= 0x7fff_ffff_ffff_ffff + 0xffff_ffff,
        divisor == 10 || divisor == 100,
    ensures
        r == if cosine {
            cos_micro(quot(a * timer + b * coordinate, divisor as int))
        } else {
            sin_micro(quot(a * timer + b * coordinate, divisor as int))
        },
        -MICRO <= r <= MICRO,
{
    assert(0 <= a * timer <= 20 * (0x7fff_ffff_ffff_ffff + 0xffff_ffff)) by (nonlinear_arith)
        requires
            0 <= a <= 20,
            0 <= timer <= 0x7fff_ffff_ffff_ffff + 0xffff_ffff,
    ;
    assert(-2 * 0x8000_0000_0000_0000 <= b * coordinate <= 2 * 0x8000_0000_0000_0000)
        by (nonlinear_arith)
        requires
            0 <= b <= 2,
            -0x8000_0000_0000_0000 <= coordinate <= 0x7fff_ffff_ffff_ffff,
    ;
    let full: i128 = (a * timer + b * (coordinate as i128)) / divisor;
    if cosine {
        cos_wide(full)
    } else {
        sin_wide(full)
    }
}

/// The way made along one axis.
fn stride_along(direction: i64, speed: i64, dt: u32) -> (r: i128)
    requires
        -MICRO <= direction <= MICRO,
    ensures
        r == quot(direction * speed * dt, MICRO * MICRO),
        -0x8000_0000_0000_0000_0000 <= r <= 0x8000_0000_0000_0000_0000,
{
    let ghost m = MICRO as int;
    assert(-m * 0x8000_0000_0000_0000 <= direction * speed <= m * 0x8000_0000_0000_0000)
        by (nonlinear_arith)
        requires
            -m <= direction <= m,
            -0x8000_0000_0000_0000 <= speed <= 0x7fff_ffff_ffff_ffff,
            m == 1_000_000,
    ;
    let ds: i128 = (direction as i128) * (speed as i128);
    assert(-m * 0x8000_0000_0000_0000 * 0xffff_ffff <= ds * dt <= m * 0x8000_0000_0000_0000
        * 0xffff_ffff) by (nonlinear_arith)
        requires
            -m * 0x8000_0000_0000_0000 <= ds <= m * 0x8000_0000_0000_0000,
            0 <= dt <= 0xffff_ffff,
            m == 1_000_000,
    ;
    proof {
        lemma_quot_le(ds * dt, m * m, 0x8000_0000_0000_0000_0000);
    }
    (ds * (dt as i128)) / 1_000_000_000_000
}

/// The sway along one axis.
fn sway_along(wave: i64, dt: u32) -> (r: i128)
    requires
        -MICRO <= wave <= MICRO,
    ensures
        r == quot(3 * wave * dt, 10 * MICRO),
        -0xffff_ffff <= r <= 0xffff_ffff,
{
    let w: i128 = 3 * (wave as i128);
    assert(-3_000_000 * 0xffff_ffff <= w * dt <= 3_000_000 * 0xffff_ffff) by (nonlinear_arith)
        requires
            -3_000_000 <= w <= 3_000_000,
            0 <= dt <= 0xffff_ffff,
    ;
    proof {
        lemma_quot_le(w * dt, 10 * MICRO, 0xffff_ffff);
    }
    (w * (dt as i128)) / 10_000_000
}

/// One coordinate after the pull toward the origin.
fn pulled(coordinate: i64, length: u64, dt: u32) -> (r: i128)
    requires
        length > 0,
    ensures
        r == coordinate - quot(coordinate * RETURN_RATE * dt, length as int),
{
    assert(-0x8000_0000_0000_0000 * 3 * 0xffff_ffff <= coordinate * RETURN_RATE * dt
        <= 0x8000_0000_0000_0000 * 3 * 0xffff_ffff) by (nonlinear_arith)
        requires
            -0x8000_0000_0000_0000 <= coordinate <= 0x7fff_ffff_ffff_ffff,
            0 <= dt <= 0xffff_ffff,
    ;
    proof {
        lemma_quot_bounds(coordinate * RETURN_RATE * dt, length as int);
        assert(magnitude(quot(coordinate * RETURN_RATE * dt, length as int)) <= magnitude(
            coordinate * RETURN_RATE * dt,
        )) by (nonlinear_arith)
            requires
                magnitude(quot(coordinate * RETURN_RATE * dt, length as int)) * length
                    <= magnitude(coordinate * RETURN_RATE * dt),
                length >= 1,
                magnitude(quot(coordinate * RETURN_RATE * dt, length as int)) >= 0,
        ;
    }
    let pull: i128 = ((coordinate as i128) * (RETURN_RATE as i128) * (dt as i128)) / (
    length as i128);
    coordinate as i128 - pull
}

/// Scales a vector that is not zero to length one.
pub fn unit_of(v: Vec3) -> (u: Vec3)
    requires
        v@.within(UNIT_LIMIT as int),
        v.x != 0 || v.y != 0 || v.z != 0,
    ensures
        u@ == unit(v@),
        u@.within_unit(),
        near_unit(u@),
{
    proof {
        lemma_unit_bounds(v@);
        lemma_unit_length(v@);
    }
    let m: i128 = MICRO as i128;
    let n: u128 = v.len_squared();
    let ghost lim = UNIT_LIMIT as int;
    assert(n <= 3 * lim * lim) by (nonlinear_arith)
        requires
            n == v.x * v.x + v.y * v.y + v.z * v.z,
            -lim <= v.x <= lim,
            -lim <= v.y <= lim,
            -lim <= v.z <= lim,
    ;
    let big: u128 = n * 1_000_000 * 1_000_000;
    let l: i128 = isqrt(big) as i128;
    assert(-lim * m * m <= v.x * m * m <= lim * m * m && -lim * m * m <= v.y * m * m <= lim * m * m
        && -lim * m * m <= v.z * m * m <= lim * m * m) by (nonlinear_arith)
        requires
            -lim <= v.x <= lim,
            -lim <= v.y <= lim,
            -lim <= v.z <= lim,
            m == 1_000_000,
    ;
    assert(v.x * m == (v.x as i128) * m);
    let ux: i128 = ((v.x as i128) * m * m) / l;
    let uy: i128 = ((v.y as i128) * m * m) / l;
    let uz: i128 = ((v.z as i128) * m * m) / l;
    Vec3 { x: ux as i64, y: uy as i64, z: uz as i64 }
}

impl SteeringState {
    #[verifier::type_invariant]
    spec fn inv(self) -> bool {
        self@.wf()
    }

    /// A steering state with the heading, speed and first interval given and
    /// the timer at zero, if the heading has length one to within four
    /// millionths.
    pub fn new(direction: Vec3, speed: i64, change_interval: i64) -> (r: Option<SteeringState>)
        ensures
            r is Some <==> direction@.within_unit() && near_unit(direction@),
            r matches Some(s) ==> s@ == (SteeringModel {
                direction: direction@,
                speed: speed as int,
                change_timer: 0,
                change_interval: change_interval as int,
            }),
    {
        if !direction.is_within(MICRO) {
            return None;
        }
        let squared = direction.len_squared();
        assert((MICRO - 4) * (MICRO - 4) == 999_992_000_016 && (MICRO + 1) * (MICRO + 1)
            == 1_000_002_000_001);
        if 999_992_000_016 < squared && squared < 1_000_002_000_001 {
            Some(SteeringState { direction, speed, change_timer: 0, change_interval })
        } else {
            None
        }
    }

    /// The steering state of a newly made entity, from five chance samples,
    /// each in millionths.
    pub fn spawned(east: u32, up: u32, south: u32, pace: u32, patience: u32) -> (s: SteeringState)
        ensures
            s@ == SteeringModel::spawned(
                east as int,
                up as int,
                south as int,
                pace as int,
                patience as int,
            ),
            s@.wf(),
    {
        let c = Vec3 {
            x: 2 * (east as i64 - 500_000),
            y: (4 * (up as i64 - 500_000)) / 10,
            z: 2 * (south as i64 - 500_000),
        };
        let direction = if c.x == 0 && c.y == 0 && c.z == 0 {
            Vec3 { x: 0, y: 0, z: -MICRO }
        } else {
            unit_of(c)
        };
        SteeringState {
            direction,
            speed: MICRO + 2 * (pace as i64),
            change_timer: 0,
            change_interval: 2 * MICRO + 3 * (patience as i64),
        }
    }

    /// The steering state of a newly made entity, drawn by chance: a heading
    /// that favours sideways movement, a speed from one metre per second up
    /// to three, and a first interval from two seconds up to five.
    pub fn spawned_by_chance() -> (s: SteeringState)
        ensures
            exists|east: int, up: int, south: int, pace: int, patience: int|
                0 <= east < MICRO && 0 <= up < MICRO && 0 <= south < MICRO && 0 <= pace < MICRO
                    && 0 <= patience < MICRO && s@ == #[trigger] SteeringModel::spawned(
                    east,
                    up,
                    south,
                    pace,
                    patience,
                ),
            s@.wf(),
            s@.change_timer == 0,
            MICRO <= s@.speed < 3 * MICRO,
            2 * MICRO <= s@.change_interval < 5 * MICRO,
    {
        let east = sample();
        let up = sample();
        let south = sample();
        let pace = sample();
        let patience = sample();
        SteeringState::spawned(east, up, south, pace, patience)
    }

    pub fn direction(&self) -> (d: Vec3)
        ensures
            d@ == self@.direction,
            d@.within_unit(),
            near_unit(d@),
    {
        proof {
            use_type_invariant(self);
        }
        self.direction
    }

    pub fn speed(&self) -> (s: i64)
        ensures
            s == self@.speed,
    {
        self.speed
    }

    pub fn change_timer(&self) -> (t: i64)
        ensures
            t == self@.change_timer,
    {
        self.change_timer
    }

    pub fn change_interval(&self) -> (t: i64)
        ensures
            t == self@.change_interval,
    {
        self.change_interval
    }

    /// Runs the timer for `dt` microseconds and changes heading if that is
    /// due.
    fn retime(&mut self, position: Vec3, dt: u32)
        ensures
            final(self)@ == old(self)@.retimed(position@, dt as nat),
            final(self)@.wf(),
    {
        proof {
            use_type_invariant(&*self);
        }
        let t: i128 = self.change_timer as i128 + dt as i128;
        if t > self.change_interval as i128 {
            proof {
                lemma_candidate_bounds(t as int, position@);
            }
            let sx = wave(5, t, 1, position.x, 10, false);
            let cy = wave(3, t, 2, position.y, 10, true);
            let sz = wave(7, t, 1, position.z, 10, false);
            let c = Vec3 { x: 2 * sx - MICRO, y: cy / 2 - 250_000, z: 2 * sz - MICRO };
            let direction = if c.x == 0 && c.y == 0 && c.z == 0 {
                self.direction
            } else {
                unit_of(c)
            };
            let si = wave(0, 0, 1, position.x, 100, false);
            *self = SteeringState {
                direction,
                speed: self.speed,
                change_timer: 0,
                change_interval: INTERVAL_BASE + 2 * si,
            };
        } else {
            *self = SteeringState { change_timer: t as i64, ..*self };
        }
    }

    /// Runs one tick of `dt` microseconds for the entity at `position`: the
    /// timer and perhaps a new heading, the stride and the sway, then
    /// containment at the surface, at the maximum radius and at the floor.
    ///
    /// The inputs this cannot serve are those that carry the entity out of
    /// the range of an `i64`.
    pub fn steer(&mut self, position: &mut Vec3, dt: u32)
        requires
            old(self)@.moved(old(position)@, dt as nat).fits(),
            old(self)@.step(old(position)@, dt as nat).1.fits(),
        ensures
            final(self)@ == old(self)@.step(old(position)@, dt as nat).0,
            final(position)@ == old(self)@.step(old(position)@, dt as nat).1,
            final(self)@.wf(),
            final(position).y >= FLOOR,
    {
        let start = *position;
        self.retime(start, dt);
        proof {
            use_type_invariant(&*self);
        }
        let timer = self.change_timer as i128;
        let sx = wave(20, timer, 1, start.x, 10, false);
        let cz = wave(15, timer, 1, start.z, 10, true);
        let mx: i128 = start.x as i128 + stride_along(self.direction.x, self.speed, dt)
            + sway_along(sx, dt);
        let my: i128 = start.y as i128 + stride_along(self.direction.y, self.speed, dt);
        let mz: i128 = start.z as i128 + stride_along(self.direction.z, self.speed, dt)
            + sway_along(cz, dt);
        let mut direction = self.direction;
        proof {
            lemma_turned_length(direction@);
        }
        let mut here = Vec3 { x: mx as i64, y: my as i64, z: mz as i64 };
        if here.y > 0 {
            here.y = 0;
            if direction.y > 0 {
                direction.y = -direction.y;
            }
        }
        let squared = here.len_squared();
        let limit: u128 = (MAX_RADIUS as u128) * (MAX_RADIUS as u128);
        let mut x: i128 = here.x as i128;
        let mut y: i128 = here.y as i128;
        let mut z: i128 = here.z as i128;
        if squared > limit {
            proof {
                lemma_sqrt_floor_dominates(squared as nat, MAX_RADIUS as nat);
            }
            let length = isqrt(squared);
            x = pulled(here.x, length, dt);
            y = pulled(here.y, length, dt);
            z = pulled(here.z, length, dt);
        }
        if y < FLOOR as i128 {
            y = FLOOR as i128;
            if direction.y < 0 {
                direction.y = -direction.y;
            }
        }
        *position = Vec3 { x: x as i64, y: y as i64, z: z as i64 };
        *self = SteeringState { direction, ..*self };
    }
}

} // verus!
