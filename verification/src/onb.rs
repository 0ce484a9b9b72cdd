use crate::scalar::Scalar;
use crate::vec3::Vec3;
use vstd::prelude::*;

verus! {

/// An orthonormal basis: three unit vectors at right angles, `w` along the
/// direction that the basis was made for.
#[derive(Clone, Copy, Debug)]
pub struct ONB {
    pub axis: [Vec3; 3],
}

/// 0.9: a unit vector whose x component is greater than this in magnitude
/// counts as lying along the x axis.
pub const ALONG_X_BITS: u32 = 0x3f66_6666;

impl ONB {
    /// The axis from which the second vector of the basis is made, for the
    /// third vector `w`: one that is not parallel to `w`, the y axis where
    /// `w` lies along the x axis and the x axis otherwise.
    pub open spec fn helper_spec(w: Vec3) -> Vec3 {
        let zero = Scalar { bits: 0 };
        let one = Scalar { bits: 0x3f80_0000 };
        if (Scalar { bits: ALONG_X_BITS }).lt_spec(w.0[0].abs_spec()) {
            Vec3([zero, one, zero])
        } else {
            Vec3([one, zero, zero])
        }
    }

    pub fn helper(w: Vec3) -> (a: Vec3)
        ensures
            a == Self::helper_spec(w),
    {
        if w.x().abs().gt(Scalar::from_bits(ALONG_X_BITS)) {
            Vec3::new(Scalar::zero(), Scalar::one(), Scalar::zero())
        } else {
            Vec3::new(Scalar::one(), Scalar::zero(), Scalar::zero())
        }
    }

    pub fn u(&self) -> (v: Vec3)
        ensures
            v == self.axis[0],
    {
        self.axis[0]
    }

    pub fn v(&self) -> (v: Vec3)
        ensures
            v == self.axis[1],
    {
        self.axis[1]
    }

    pub fn w(&self) -> (v: Vec3)
        ensures
            v == self.axis[2],
    {
        self.axis[2]
    }
}

} // verus!
