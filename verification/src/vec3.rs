use crate::scalar::Scalar;
use vstd::prelude::*;

verus! {

/// Three scalars: a position, a direction or a colour.
#[derive(Clone, Copy, Debug)]
pub struct Vec3(pub [Scalar; 3]);

pub type Point3 = Vec3;

pub type Color = Vec3;

/// Below this magnitude, 1e-8, a component counts as zero.
pub const NEAR_ZERO_BITS: u32 = 0x322b_cc77;

impl Vec3 {
    /// Every component is smaller in magnitude than 1e-8.
    pub open spec fn near_zero_spec(self) -> bool {
        let s = Scalar { bits: NEAR_ZERO_BITS };
        self.0[0].abs_spec().lt_spec(s) && self.0[1].abs_spec().lt_spec(s)
            && self.0[2].abs_spec().lt_spec(s)
    }

    /// Each component with its sign changed.
    pub open spec fn neg_spec(self) -> Vec3 {
        Vec3([self.0[0].neg_spec(), self.0[1].neg_spec(), self.0[2].neg_spec()])
    }

    pub fn new(x: Scalar, y: Scalar, z: Scalar) -> (v: Vec3)
        ensures
            v == Vec3([x, y, z]),
    {
        Vec3([x, y, z])
    }

    pub fn x(&self) -> (s: Scalar)
        ensures
            s == self.0[0],
    {
        self.0[0]
    }

    pub fn y(&self) -> (s: Scalar)
        ensures
            s == self.0[1],
    {
        self.0[1]
    }

    pub fn z(&self) -> (s: Scalar)
        ensures
            s == self.0[2],
    {
        self.0[2]
    }

    pub fn near_zero(&self) -> (b: bool)
        ensures
            b == self.near_zero_spec(),
    {
        let s = Scalar::from_bits(NEAR_ZERO_BITS);
        self.0[0].abs().lt(s) && self.0[1].abs().lt(s) && self.0[2].abs().lt(s)
    }

    pub fn neg(self) -> (v: Vec3)
        ensures
            v == self.neg_spec(),
    {
        Vec3([self.0[0].neg(), self.0[1].neg(), self.0[2].neg()])
    }
}

/// A direction on the side of a surface that its normal points to: the
/// direction `in_unit_sphere`, or its opposite, by the sign of its dot
/// product with the normal, `facing`.
pub fn random_on_hemisphere(in_unit_sphere: Vec3, facing: Scalar) -> (v: Vec3)
    ensures
        v == if (Scalar { bits: 0 }).lt_spec(facing) {
            in_unit_sphere
        } else {
            in_unit_sphere.neg_spec()
        },
{
    if facing.gt(Scalar::zero()) {
        in_unit_sphere
    } else {
        in_unit_sphere.neg()
    }
}

/// A point drawn from the cube about the origin is kept for a point of the
/// unit ball, or of the unit disk, where the square of its length is below
/// 1.
pub fn in_unit_ball(length_squared: Scalar) -> (b: bool)
    ensures
        b == length_squared.lt_spec(Scalar { bits: 0x3f80_0000 }),
{
    length_squared.lt(Scalar::one())
}

impl Default for Vec3 {
    fn default() -> (v: Vec3)
        ensures
            v == Vec3([Scalar { bits: 0 }, Scalar { bits: 0 }, Scalar { bits: 0 }]),
    {
        Vec3([Scalar::zero(), Scalar::zero(), Scalar::zero()])
    }
}

} // verus!
