use crate::interval::Interval;
use crate::scalar::Scalar;
use crate::vec3::{Point3, Vec3};
use vstd::prelude::*;

verus! {

/// What is known of the point at which a ray meets a surface.
#[derive(Clone, Copy, Debug)]
pub struct HitRecord {
    /// The point.
    pub p: Point3,
    /// The surface normal there, turned against the ray.
    pub normal: Vec3,
    /// The surface's material, as its index in the scene's table of
    /// materials; `None` for a surface that neither scatters nor emits.
    pub mat: Option<usize>,
    /// The ray's parameter at the point.
    pub t: Scalar,
    /// The surface coordinates of the point.
    pub u: Scalar,
    pub v: Scalar,
    /// The ray met the surface from outside.
    pub front_face: bool,
}

/// The interval in which the second child of a node is tested: that of the
/// node, cut off at the hit that the first child reported.
pub open spec fn narrowed(ray_t: Interval, first: Option<HitRecord>) -> Interval {
    Interval {
        min: ray_t.min,
        max: match first {
            Some(rec) => rec.t,
            None => ray_t.max,
        },
    }
}

/// What a node reports when its children reported `first` and `second`: the
/// second child's hit where it has one, which is then the nearer, since that
/// child was tested only up to the first's.
pub open spec fn later_or(first: Option<HitRecord>, second: Option<HitRecord>) -> Option<
    HitRecord,
> {
    if second is Some {
        second
    } else {
        first
    }
}

impl HitRecord {
    /// Sets `front_face` and `normal` from the geometric normal, which points
    /// outward, and its dot product with the ray's direction, `facing`: the
    /// ray comes from outside where that is negative, and the stored normal
    /// is turned to point against the ray.
    pub fn set_face_normal(&mut self, facing: Scalar, outward_normal: Vec3)
        ensures
            final(self).front_face == facing.lt_spec(Scalar { bits: 0 }),
            final(self).normal == if facing.lt_spec(Scalar { bits: 0 }) {
                outward_normal
            } else {
                outward_normal.neg_spec()
            },
            final(self).p == old(self).p,
            final(self).mat == old(self).mat,
            final(self).t == old(self).t,
            final(self).u == old(self).u,
            final(self).v == old(self).v,
    {
        self.front_face = facing.lt(Scalar::zero());
        self.normal = if self.front_face {
            outward_normal
        } else {
            outward_normal.neg()
        };
    }
}

impl Default for HitRecord {
    fn default() -> (rec: HitRecord)
        ensures
            rec.mat is None,
            !rec.front_face,
            rec.t.bits == 0,
            rec.u.bits == 0,
            rec.v.bits == 0,
    {
        HitRecord {
            p: Vec3::default(),
            normal: Vec3::default(),
            mat: None,
            t: Scalar::zero(),
            u: Scalar::zero(),
            v: Scalar::zero(),
            front_face: false,
        }
    }
}

} // verus!
