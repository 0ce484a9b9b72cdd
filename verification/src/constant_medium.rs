use crate::hittable::HitRecord;
use crate::interval::Interval;
use crate::scalar::Scalar;
use crate::vec3::{Point3, Vec3};
use vstd::prelude::*;

verus! {

/// A medium of constant density inside a boundary: smoke, fog.
#[derive(Clone, Copy, Debug)]
pub struct ConstantMedium {
    /// -1 / density.
    pub neg_inv_density: Scalar,
    /// The material by which the medium scatters.
    pub phase_function: Option<usize>,
}

impl ConstantMedium {
    /// The stretch of a ray inside the medium that counts: from `entry` to
    /// `exit`, the parameters at which the ray crosses the boundary, cut down
    /// to `ray_t` and to what lies ahead of the ray's origin; none where
    /// nothing is left.
    pub open spec fn stretch(entry: Scalar, exit: Scalar, ray_t: Interval) -> Option<Interval> {
        let from = if entry.lt_spec(ray_t.min) {
            ray_t.min
        } else {
            entry
        };
        let to = if ray_t.max.lt_spec(exit) {
            ray_t.max
        } else {
            exit
        };
        if to.le_spec(from) {
            None
        } else if from.lt_spec(Scalar { bits: 0 }) {
            Some(Interval { min: Scalar { bits: 0 }, max: to })
        } else {
            Some(Interval { min: from, max: to })
        }
    }

    /// The first decision of the ray test: the stretch of the ray inside the
    /// medium, between its two crossings of the boundary, that lies in
    /// `ray_t` and ahead of the origin.
    pub fn inside(entry: Scalar, exit: Scalar, ray_t: &Interval) -> (part: Option<Interval>)
        ensures
            part == Self::stretch(entry, exit, *ray_t),
    {
        let mut from = entry;
        let mut to = exit;
        if from.lt(ray_t.min) {
            from = ray_t.min;
        }
        if to.gt(ray_t.max) {
            to = ray_t.max;
        }
        if from.ge(to) {
            return None;
        }
        if from.lt(Scalar::zero()) {
            from = Scalar::zero();
        }
        Some(Interval::new(from, to))
    }

    /// The second decision: the ray is scattered inside the medium unless
    /// the distance drawn for its free flight, `hit_distance`, is greater
    /// than the distance it travels inside the boundary.
    pub fn scatters(hit_distance: Scalar, distance_inside_boundary: Scalar) -> (b: bool)
        ensures
            b == !distance_inside_boundary.lt_spec(hit_distance),
    {
        !hit_distance.gt(distance_inside_boundary)
    }

    /// The record of a scattering at the parameter `t` and the point `p`.
    /// A medium has no surface: the normal is the x axis and the ray counts
    /// as coming from outside.
    pub fn hit(&self, t: Scalar, p: Point3, rec: &mut HitRecord)
        ensures
            *final(rec) == (HitRecord {
                p,
                normal: Vec3([Scalar { bits: 0x3f80_0000 }, Scalar { bits: 0 }, Scalar { bits: 0 }]),
                mat: self.phase_function,
                t,
                front_face: true,
                ..*old(rec)
            }),
    {
        rec.t = t;
        rec.p = p;
        rec.normal = Vec3::new(Scalar::one(), Scalar::zero(), Scalar::zero());
        rec.front_face = true;
        rec.mat = self.phase_function;
    }
}

/// For crossings and bounds that are numbers, the stretch starts at or
/// ahead of the origin, ends inside `ray_t` and inside the medium, and
/// starts, unless at the origin, inside both and before it ends.
pub proof fn lemma_stretch(entry: Scalar, exit: Scalar, ray_t: Interval)
    requires
        !ray_t.min.nan() && !ray_t.max.nan(),
        !entry.nan() && !exit.nan(),
    ensures
        ConstantMedium::stretch(entry, exit, ray_t) matches Some(part) ==> {
            &&& (Scalar { bits: 0 }).le_spec(part.min)
            &&& part.max.le_spec(exit)
            &&& part.max.le_spec(ray_t.max)
            &&& part.min.bits == 0 || {
                &&& entry.le_spec(part.min)
                &&& ray_t.min.le_spec(part.min)
                &&& part.min.lt_spec(part.max)
            }
        },
{
}

} // verus!
