//! Three-component vectors and the orientation frame built from them.
use vstd::prelude::*;
use crate::fixed::{
    MICRO, abs_u64, fits_i64, isqrt, lemma_quot_le, magnitude, quot, sqrt_floor,
};
use crate::trig::{HALF_TURN, QUARTER_TURN, atan2, atan2_micro};

verus! {

/// A vector of three fixed-point scalars. The vertical axis is `y`, pointing
/// up; the surface plane is `y == 0`.
#[derive(Clone, Copy, Debug, PartialEq, Eq, Structural)]
pub struct Vec3 {
    pub x: i64,
    pub y: i64,
    pub z: i64,
}

/// The mathematical vector that a `Vec3` stands for, and the form in which
/// contracts state a result before it is known to be representable.
pub struct Vector {
    pub x: int,
    pub y: int,
    pub z: int,
}

impl Vector {
    /// Whether each component is representable as an `i64`.
    pub open spec fn fits(self) -> bool {
        fits_i64(self.x) && fits_i64(self.y) && fits_i64(self.z)
    }

    /// The component-wise sum.
    pub open spec fn plus(self, other: Vector) -> Vector {
        Vector { x: self.x + other.x, y: self.y + other.y, z: self.z + other.z }
    }

    /// The component-wise difference.
    pub open spec fn minus(self, other: Vector) -> Vector {
        Vector { x: self.x - other.x, y: self.y - other.y, z: self.z - other.z }
    }

    /// The sum of the squares of the components.
    pub open spec fn length_squared(self) -> int {
        self.x * self.x + self.y * self.y + self.z * self.z
    }

    /// The Euclidean length, rounded down to a whole count.
    pub open spec fn length(self) -> nat {
        sqrt_floor(self.length_squared() as nat)
    }

    /// Whether every component's magnitude is at most `bound`.
    pub open spec fn within(self, bound: int) -> bool {
        &&& -bound <= self.x <= bound
        &&& -bound <= self.y <= bound
        &&& -bound <= self.z <= bound
    }

    /// Whether every component lies between -1.0 and 1.0.
    pub open spec fn within_unit(self) -> bool {
        self.within(MICRO as int)
    }

    /// The scalar product with `other`, in squared units.
    pub open spec fn dot(self, other: Vector) -> int {
        self.x * other.x + self.y * other.y + self.z * other.z
    }
}

impl View for Vec3 {
    type V = Vector;

    open spec fn view(&self) -> Vector {
        Vector { x: self.x as int, y: self.y as int, z: self.z as int }
    }
}

impl DeepView for Vec3 {
    type V = Vector;

    open spec fn deep_view(&self) -> Vector {
        self@
    }
}

impl Vec3 {
    pub fn new(x: i64, y: i64, z: i64) -> (v: Vec3)
        ensures
            v == (Vec3 { x, y, z }),
    {
        Vec3 { x, y, z }
    }

    pub fn zero() -> (v: Vec3)
        ensures
            v == (Vec3 { x: 0, y: 0, z: 0 }),
    {
        Vec3 { x: 0, y: 0, z: 0 }
    }

    /// Reports whether every component's magnitude is at most `bound`.
    pub fn is_within(&self, bound: i64) -> (b: bool)
        requires
            bound >= 0,
        ensures
            b == self@.within(bound as int),
    {
        -bound <= self.x && self.x <= bound && -bound <= self.y && self.y <= bound && -bound
            <= self.z && self.z <= bound
    }

    /// The exact squared length.
    pub fn len_squared(&self) -> (n: u128)
        ensures
            n == self@.length_squared(),
    {
        let x: u128 = abs_u64(self.x) as u128;
        let y: u128 = abs_u64(self.y) as u128;
        let z: u128 = abs_u64(self.z) as u128;
        proof {
            lemma_square_bound(x as int);
            lemma_square_bound(y as int);
            lemma_square_bound(z as int);
            lemma_square_of_magnitude(self.x as int);
            lemma_square_of_magnitude(self.y as int);
            lemma_square_of_magnitude(self.z as int);
        }
        x * x + y * y + z * z
    }

    /// The length, rounded down.
    pub fn len(&self) -> (n: u64)
        ensures
            n == self@.length(),
    {
        isqrt(self.len_squared())
    }
}

/// The largest magnitude an offset's components may have for its image in a
/// frame to be representable.
pub const REACH_LIMIT: i64 = 3_000_000_000_000_000_000;

/// The three axes of a body's own frame, each given in world coordinates:
/// `right` is the body's lateral axis, `up` its vertical axis, and `back`
/// points astern, so the body faces along `-back`.
#[derive(Clone, Copy, Debug, PartialEq, Eq, Structural)]
pub struct Axes {
    pub right: Vec3,
    pub up: Vec3,
    pub back: Vec3,
}

impl Axes {
    /// Whether no component of any axis exceeds 1.0 in magnitude.
    pub open spec fn wf(self) -> bool {
        self.right@.within_unit() && self.up@.within_unit() && self.back@.within_unit()
    }

    /// The axes of a body aligned with the world.
    pub open spec fn aligned() -> Axes {
        Axes {
            right: Vec3 { x: MICRO, y: 0, z: 0 },
            up: Vec3 { x: 0, y: MICRO, z: 0 },
            back: Vec3 { x: 0, y: 0, z: MICRO },
        }
    }

    /// The yaw of a body with these axes: the angle of its astern axis about
    /// the vertical.
    pub open spec fn yaw(self) -> int {
        atan2_micro(self.back.x as int, self.back.z as int)
    }

    /// The pitch of a body with these axes: the angle by which its astern
    /// axis dips below the horizontal, between minus a quarter turn and a
    /// quarter turn.
    pub open spec fn pitch(self) -> int {
        atan2_micro(
            -(self.back.y as int),
            (Vector { x: self.back.x as int, y: 0, z: self.back.z as int }).length() as int,
        )
    }

    /// The roll of a body with these axes: the angle of its lateral axis
    /// against the horizontal, about its own length.
    pub open spec fn roll(self) -> int {
        atan2_micro(self.right.y as int, self.up.y as int)
    }

    /// A world-space offset as the body sees it: its coordinates along the
    /// three axes, each scaled back to millionths. What lies ahead has a
    /// negative `z`.
    pub open spec fn local(self, offset: Vector) -> Vector {
        Vector {
            x: quot(self.right@.dot(offset), MICRO as int),
            y: quot(self.up@.dot(offset), MICRO as int),
            z: quot(self.back@.dot(offset), MICRO as int),
        }
    }
}

/// An orientation: a set of axes known to be well formed.
#[derive(Clone, Copy, Debug)]
pub struct Frame {
    axes: Axes,
}

impl View for Frame {
    type V = Axes;

    closed spec fn view(&self) -> Axes {
        self.axes
    }
}

/// The scalar product of two vectors, one of them within the unit cube, is
/// at most three times the other's largest component.
pub proof fn lemma_dot_bound(axis: Vector, offset: Vector, bound: int)
    requires
        axis.within_unit(),
        offset.within(bound),
        bound >= 0,
    ensures
        magnitude(axis.dot(offset)) <= 3 * bound * MICRO,
        magnitude(quot(axis.dot(offset), MICRO as int)) <= 3 * bound,
{
    let m = MICRO as int;
    assert(-bound * m <= axis.x * offset.x <= bound * m) by (nonlinear_arith)
        requires
            -m <= axis.x <= m,
            -bound <= offset.x <= bound,
    ;
    assert(-bound * m <= axis.y * offset.y <= bound * m) by (nonlinear_arith)
        requires
            -m <= axis.y <= m,
            -bound <= offset.y <= bound,
    ;
    assert(-bound * m <= axis.z * offset.z <= bound * m) by (nonlinear_arith)
        requires
            -m <= axis.z <= m,
            -bound <= offset.z <= bound,
    ;
    assert((3 * bound) * m == 3 * bound * m) by (nonlinear_arith);
    lemma_quot_le(axis.dot(offset), m, 3 * bound);
}

/// Computes one local coordinate.
fn project_on(axis: &Vec3, offset: &Vec3) -> (r: i64)
    requires
        axis@.within_unit(),
        offset@.within(REACH_LIMIT as int),
    ensures
        r == quot(axis@.dot(offset@), MICRO as int),
{
    proof {
        lemma_dot_bound(axis@, offset@, REACH_LIMIT as int);
        let m = MICRO as int;
        let b = REACH_LIMIT as int;
        assert(-b * m <= axis.x * offset.x <= b * m) by (nonlinear_arith)
            requires
                -m <= axis.x <= m,
                -b <= offset.x <= b,
        ;
        assert(-b * m <= axis.y * offset.y <= b * m) by (nonlinear_arith)
            requires
                -m <= axis.y <= m,
                -b <= offset.y <= b,
        ;
        assert(-b * m <= axis.z * offset.z <= b * m) by (nonlinear_arith)
            requires
                -m <= axis.z <= m,
                -b <= offset.z <= b,
        ;
    }
    let d: i128 = (axis.x as i128) * (offset.x as i128) + (axis.y as i128) * (offset.y as i128)
        + (axis.z as i128) * (offset.z as i128);
    (d / (MICRO as i128)) as i64
}

impl Frame {
    #[verifier::type_invariant]
    spec fn inv(self) -> bool {
        self.axes.wf()
    }

    /// The frame of a body aligned with the world.
    pub fn aligned() -> (f: Frame)
        ensures
            f@ == Axes::aligned(),
            f@.wf(),
    {
        Frame {
            axes: Axes {
                right: Vec3 { x: MICRO, y: 0, z: 0 },
                up: Vec3 { x: 0, y: MICRO, z: 0 },
                back: Vec3 { x: 0, y: 0, z: MICRO },
            },
        }
    }

    /// Accepts a set of axes if none of their components exceeds 1.0 in
    /// magnitude.
    pub fn new(axes: Axes) -> (r: Option<Frame>)
        ensures
            r is Some <==> axes.wf(),
            r matches Some(f) ==> f@ == axes,
    {
        if axes.right.is_within(MICRO) && axes.up.is_within(MICRO) && axes.back.is_within(MICRO) {
            Some(Frame { axes })
        } else {
            None
        }
    }

    /// The axes of this frame.
    pub fn axes(&self) -> (a: Axes)
        ensures
            a == self@,
            a.wf(),
    {
        proof {
            use_type_invariant(self);
        }
        self.axes
    }

    /// The frame's yaw: the angle about the vertical axis by which the body
    /// is turned from the world's alignment, between minus half a turn and
    /// half a turn.
    pub fn yaw(&self) -> (a: i64)
        ensures
            a == self@.yaw(),
            -HALF_TURN <= a <= HALF_TURN,
    {
        atan2(self.axes.back.x, self.axes.back.z)
    }

    /// The frame's pitch, between minus a quarter turn and a quarter turn.
    pub fn pitch(&self) -> (a: i64)
        ensures
            a == self@.pitch(),
            -QUARTER_TURN <= a <= QUARTER_TURN,
    {
        proof {
            use_type_invariant(self);
        }
        let level = Vec3 { x: self.axes.back.x, y: 0, z: self.axes.back.z };
        let run: u64 = level.len();
        proof {
            let n = level@.length_squared();
            assert(0 <= n <= 2 * (MICRO * MICRO)) by (nonlinear_arith)
                requires
                    n == level.x * level.x + 0 * 0 + level.z * level.z,
                    -MICRO <= level.x <= MICRO,
                    -MICRO <= level.z <= MICRO,
            ;
            crate::fixed::lemma_sqrt_floor_brackets(n as nat);
            assert(run <= 2 * MICRO) by (nonlinear_arith)
                requires
                    run * run <= n,
                    n <= 2 * (MICRO * MICRO),
                    MICRO == 1_000_000,
            ;
            crate::trig::lemma_atan2_bounds(-(self.axes.back.y as int), run as int);
        }
        atan2(-self.axes.back.y, run as i64)
    }

    /// The frame's roll, between minus half a turn and half a turn.
    pub fn roll(&self) -> (a: i64)
        ensures
            a == self@.roll(),
            -HALF_TURN <= a <= HALF_TURN,
    {
        atan2(self.axes.right.y, self.axes.up.y)
    }

    /// Expresses a world-space offset in this frame, as the inverse of the
    /// orientation does.
    pub fn to_local(&self, offset: Vec3) -> (local: Vec3)
        requires
            offset@.within(REACH_LIMIT as int),
        ensures
            local@ == self@.local(offset@),
    {
        proof {
            use_type_invariant(self);
        }
        Vec3 {
            x: project_on(&self.axes.right, &offset),
            y: project_on(&self.axes.up, &offset),
            z: project_on(&self.axes.back, &offset),
        }
    }
}

/// The square of anything up to 2^63 stays below 2^126.
pub proof fn lemma_square_bound(m: int)
    requires
        0 <= m <= 0x8000_0000_0000_0000,
    ensures
        0 <= m * m <= 0x4000_0000_0000_0000_0000_0000_0000_0000,
{
    assert(0 <= m * m <= 0x8000_0000_0000_0000 * 0x8000_0000_0000_0000) by (nonlinear_arith)
        requires
            0 <= m <= 0x8000_0000_0000_0000,
    ;
}

/// A number and its magnitude have the same square.
pub proof fn lemma_square_of_magnitude(v: int)
    ensures
        magnitude(v) * magnitude(v) == v * v,
{
    assert((-v) * (-v) == v * v) by (nonlinear_arith);
}

} // verus!
