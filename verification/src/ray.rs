use crate::scalar::Scalar;
use crate::vec3::{Point3, Vec3};
use vstd::prelude::*;

verus! {

/// A half-line: the points `origin + t * direction`, and the moment at which
/// it was cast.
#[derive(Clone, Copy, Debug)]
pub struct Ray {
    orig: Point3,
    dir: Vec3,
    tm: Scalar,
}

impl Ray {
    pub closed spec fn origin_spec(self) -> Point3 {
        self.orig
    }

    pub closed spec fn direction_spec(self) -> Vec3 {
        self.dir
    }

    pub closed spec fn time_spec(self) -> Scalar {
        self.tm
    }

    pub fn new(origin: Point3, direction: Vec3, time: Scalar) -> (r: Ray)
        ensures
            r.origin_spec() == origin,
            r.direction_spec() == direction,
            r.time_spec() == time,
    {
        Ray { orig: origin, dir: direction, tm: time }
    }

    pub fn origin(&self) -> (p: Point3)
        ensures
            p == self.origin_spec(),
    {
        self.orig
    }

    pub fn direction(&self) -> (d: Vec3)
        ensures
            d == self.direction_spec(),
    {
        self.dir
    }

    pub fn time(&self) -> (t: Scalar)
        ensures
            t == self.time_spec(),
    {
        self.tm
    }
}

impl Default for Ray {
    fn default() -> (r: Ray)
        ensures
            r.time_spec().bits == 0,
            r.origin_spec().0[0].bits == 0,
            r.origin_spec().0[1].bits == 0,
            r.origin_spec().0[2].bits == 0,
            r.direction_spec().0[0].bits == 0,
            r.direction_spec().0[1].bits == 0,
            r.direction_spec().0[2].bits == 0,
    {
        Ray { orig: Vec3::default(), dir: Vec3::default(), tm: Scalar::zero() }
    }
}

} // verus!
