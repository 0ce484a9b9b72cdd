use crate::aabb::AABB;
use crate::interval::Interval;
use crate::scalar::Scalar;
use crate::vec3::{Point3, Vec3};
use vstd::prelude::*;

verus! {

/// A sphere, at rest or moving: its centre at time 0, its radius, and for
/// one that moves the way its centre goes from time 0 to time 1.
#[derive(Clone, Copy, Debug)]
pub struct Sphere {
    pub center: Point3,
    pub radius: Scalar,
    pub mat: Option<usize>,
    pub bbox: AABB,
    pub is_moving: bool,
    pub center_vec: Vec3,
}

impl Sphere {
    /// The parameter at which a ray meets the sphere: none where the
    /// discriminant of the quadratic is negative; else the nearer root where
    /// `ray_t` surrounds it, else the farther where `ray_t` surrounds that,
    /// else none.
    pub open spec fn root(
        discriminant: Scalar,
        near: Scalar,
        far: Scalar,
        ray_t: Interval,
    ) -> Option<Scalar> {
        if discriminant.lt_spec(Scalar { bits: 0 }) {
            None
        } else if ray_t.surrounds_spec(near) {
            Some(near)
        } else if ray_t.surrounds_spec(far) {
            Some(far)
        } else {
            None
        }
    }

    /// The centre at which the sphere is to be met by a ray, given where its
    /// centre is at the ray's time: that place for a sphere that moves, its
    /// one centre for a sphere at rest.
    pub fn center_for(&self, center_at_time: Point3) -> (c: Point3)
        ensures
            c == if self.is_moving {
                center_at_time
            } else {
                self.center
            },
    {
        if self.is_moving {
            center_at_time
        } else {
            self.center
        }
    }

    /// The decision of the ray test, on the discriminant and the two roots
    /// of the quadratic, `near` the smaller.
    pub fn hit(discriminant: Scalar, near: Scalar, far: Scalar, ray_t: &Interval) -> (t: Option<
        Scalar,
    >)
        ensures
            t == Self::root(discriminant, near, far, *ray_t),
    {
        if discriminant.lt(Scalar::zero()) {
            return None;
        }
        if ray_t.surrounds(near) {
            Some(near)
        } else if ray_t.surrounds(far) {
            Some(far)
        } else {
            None
        }
    }

    /// The density with which directions towards the sphere are sampled:
    /// zero for a direction that misses it, else `density`, the reciprocal
    /// of the solid angle that the sphere fills.
    pub fn pdf_value(met: bool, density: Scalar) -> (value: Scalar)
        ensures
            value == if met {
                density
            } else {
                Scalar { bits: 0 }
            },
    {
        if !met {
            return Scalar::zero();
        }
        density
    }

    pub fn bounding_box(&self) -> (b: &AABB)
        ensures
            *b == self.bbox,
    {
        &self.bbox
    }
}

/// Of two roots that `ray_t` both surrounds the nearer is chosen, and a root
/// that is chosen lies strictly inside `ray_t`.
pub proof fn lemma_nearer_root(discriminant: Scalar, near: Scalar, far: Scalar, ray_t: Interval)
    ensures
        !discriminant.lt_spec(Scalar { bits: 0 }) && ray_t.surrounds_spec(near) ==> Sphere::root(
            discriminant,
            near,
            far,
            ray_t,
        ) == Some(near),
        Sphere::root(discriminant, near, far, ray_t) matches Some(t) ==> ray_t.surrounds_spec(t)
            && (t == near || t == far),
        near.le_spec(far) && Sphere::root(discriminant, near, far, ray_t) == Some(far) && far.key()
            != near.key() ==> !ray_t.surrounds_spec(near),
{
}

} // verus!
