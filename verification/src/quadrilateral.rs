use crate::aabb::AABB;
use crate::config::{MaterialConfig, Shape};
use crate::hittable::HitRecord;
use crate::interval::Interval;
use crate::scalar::Scalar;
use crate::vec3::{Point3, Vec3, NEAR_ZERO_BITS};
use vstd::prelude::*;

verus! {

/// A parallelogram: the points `q + alpha * u + beta * v` with `alpha` and
/// `beta` from 0 to 1. Beside the corner and the two edges it holds what is
/// worked out from them once: the unit normal of its plane, the plane's
/// offset `d` along that normal, the vector `w` by which plane coordinates
/// are found, and the bounding box.
#[derive(Clone, Copy, Debug)]
pub struct Quadrilateral {
    pub q: Point3,
    pub u: Vec3,
    pub v: Vec3,
    pub w: Vec3,
    pub material: Option<usize>,
    pub bbox: AABB,
    pub normal: Vec3,
    pub d: Scalar,
}

/// The interval from 0 to 1.
pub open spec fn unit_interval() -> Interval {
    Interval { min: Scalar { bits: 0 }, max: Scalar { bits: 0x3f80_0000 } }
}

impl Quadrilateral {
    /// The plane coordinates `alpha` and `beta` are those of a point of the
    /// parallelogram: both lie in the interval from 0 to 1.
    pub open spec fn interior(alpha: Scalar, beta: Scalar) -> bool {
        unit_interval().contains_spec(alpha) && unit_interval().contains_spec(beta)
    }

    /// A ray meets the parallelogram: it is not parallel to the plane, the
    /// dot product `denom` of its direction and the plane's normal being at
    /// least 1e-8 in magnitude; it meets the plane at a parameter `t` in
    /// `ray_t`; and the point has the plane coordinates of a point of the
    /// parallelogram.
    pub open spec fn meets(
        denom: Scalar,
        t: Scalar,
        alpha: Scalar,
        beta: Scalar,
        ray_t: Interval,
    ) -> bool {
        &&& !denom.abs_spec().lt_spec(Scalar { bits: NEAR_ZERO_BITS })
        &&& ray_t.contains_spec(t)
        &&& Self::interior(alpha, beta)
    }

    /// Whether the plane coordinates are those of a point of the
    /// parallelogram; where they are, they become the surface coordinates
    /// of `rec`.
    pub fn is_interior(alpha: Scalar, beta: Scalar, rec: &mut HitRecord) -> (b: bool)
        ensures
            b == Self::interior(alpha, beta),
            b ==> *final(rec) == (HitRecord { u: alpha, v: beta, ..*old(rec) }),
            !b ==> *final(rec) == *old(rec),
    {
        let unit = Interval::new(Scalar::zero(), Scalar::one());
        if !unit.contains(alpha) || !unit.contains(beta) {
            return false;
        }
        rec.u = alpha;
        rec.v = beta;
        true
    }

    pub fn bounding_box(&self) -> (b: &AABB)
        ensures
            *b == self.bbox,
    {
        &self.bbox
    }

    /// The decision of the ray test, on what the arithmetic found: `denom`,
    /// the parameter `t` at which the ray meets the plane, the point
    /// `intersection` there and its plane coordinates. On a hit `rec` takes
    /// the parameter, the point, the surface coordinates, the material and
    /// the normal, turned against the ray.
    pub fn hit(
        &self,
        denom: Scalar,
        t: Scalar,
        intersection: Point3,
        alpha: Scalar,
        beta: Scalar,
        ray_t: &Interval,
        rec: &mut HitRecord,
    ) -> (b: bool)
        ensures
            b == Self::meets(denom, t, alpha, beta, *ray_t),
            !b ==> *final(rec) == *old(rec),
            b ==> *final(rec) == (HitRecord {
                p: intersection,
                normal: if denom.lt_spec(Scalar { bits: 0 }) {
                    self.normal
                } else {
                    self.normal.neg_spec()
                },
                mat: self.material,
                t,
                u: alpha,
                v: beta,
                front_face: denom.lt_spec(Scalar { bits: 0 }),
            }),
    {
        if denom.abs().lt(Scalar::from_bits(NEAR_ZERO_BITS)) {
            return false;
        }
        if !ray_t.contains(t) {
            return false;
        }
        if !Self::is_interior(alpha, beta, rec) {
            return false;
        }
        rec.t = t;
        rec.p = intersection;
        rec.mat = self.material;
        rec.set_face_normal(denom, self.normal);
        true
    }
}

/// The six sides of the box with the opposite corners `min` and `max`, whose
/// edges have the lengths `dx`, `dy` and `dz`.
pub open spec fn box_sides(
    min: Point3,
    max: Point3,
    dx: Scalar,
    dy: Scalar,
    dz: Scalar,
    material: MaterialConfig,
) -> Seq<Shape> {
    let zero = Scalar { bits: 0 };
    let ex = Vec3([dx, zero, zero]);
    let ey = Vec3([zero, dy, zero]);
    let ez = Vec3([zero, zero, dz]);
    seq![
        Shape::Quad { corner: Vec3([min.0[0], min.0[1], max.0[2]]), u: ex, v: ey, material },
        Shape::Quad {
            corner: Vec3([max.0[0], min.0[1], max.0[2]]),
            u: ez.neg_spec(),
            v: ey,
            material,
        },
        Shape::Quad {
            corner: Vec3([max.0[0], min.0[1], min.0[2]]),
            u: ex.neg_spec(),
            v: ey,
            material,
        },
        Shape::Quad { corner: Vec3([min.0[0], min.0[1], min.0[2]]), u: ez, v: ey, material },
        Shape::Quad {
            corner: Vec3([min.0[0], max.0[1], max.0[2]]),
            u: ex,
            v: ez.neg_spec(),
            material,
        },
        Shape::Quad { corner: Vec3([min.0[0], min.0[1], min.0[2]]), u: ex, v: ez, material },
    ]
}

/// The corner of least coordinates of the box that has `a` and `b` for
/// opposite corners.
pub open spec fn least_corner(a: Point3, b: Point3) -> Point3 {
    Vec3(
        [a.0[0].min_spec(b.0[0]), a.0[1].min_spec(b.0[1]), a.0[2].min_spec(b.0[2])],
    )
}

/// The corner of greatest coordinates of that box.
pub open spec fn greatest_corner(a: Point3, b: Point3) -> Point3 {
    Vec3(
        [a.0[0].max_spec(b.0[0]), a.0[1].max_spec(b.0[1]), a.0[2].max_spec(b.0[2])],
    )
}

/// `dx`, `dy` and `dz` are what `size` finds for the lengths of the edges of
/// the box that has `a` and `b` for opposite corners.
pub open spec fn edges_measured<Z>(
    a: Point3,
    b: Point3,
    size: Z,
    dx: Scalar,
    dy: Scalar,
    dz: Scalar,
) -> bool where Z: Fn(&Interval) -> Scalar {
    let min = least_corner(a, b);
    let max = greatest_corner(a, b);
    &&& call_ensures(size, (&Interval { min: min.0[0], max: max.0[0] },), dx)
    &&& call_ensures(size, (&Interval { min: min.0[1], max: max.0[1] },), dy)
    &&& call_ensures(size, (&Interval { min: min.0[2], max: max.0[2] },), dz)
}

/// The box with the opposite corners `a` and `b`, as its six sides: front,
/// right, back, left, top and bottom. `size` gives the length of an
/// interval, by which the edges are measured.
pub fn new_box<Z>(a: Point3, b: Point3, material: MaterialConfig, size: &Z) -> (sides: Vec<
    Shape,
>) where Z: Fn(&Interval) -> Scalar
    requires
        forall|iv: Interval| call_requires(*size, (&iv,)),
    ensures
        exists|dx: Scalar, dy: Scalar, dz: Scalar|
            {
                &&& edges_measured(a, b, *size, dx, dy, dz)
                &&& sides@ == #[trigger] box_sides(
                    least_corner(a, b),
                    greatest_corner(a, b),
                    dx,
                    dy,
                    dz,
                    material,
                )
            },
{
    let min = Vec3::new(a.x().min(b.x()), a.y().min(b.y()), a.z().min(b.z()));
    let max = Vec3::new(a.x().max(b.x()), a.y().max(b.y()), a.z().max(b.z()));
    let zero = Scalar::zero();
    let x_size = size(&Interval::new(min.x(), max.x()));
    let y_size = size(&Interval::new(min.y(), max.y()));
    let z_size = size(&Interval::new(min.z(), max.z()));
    let dx = Vec3::new(x_size, zero, zero);
    let dy = Vec3::new(zero, y_size, zero);
    let dz = Vec3::new(zero, zero, z_size);
    let mut sides: Vec<Shape> = Vec::new();
    sides.push(
        Shape::Quad { corner: Vec3::new(min.x(), min.y(), max.z()), u: dx, v: dy, material },
    );
    sides.push(
        Shape::Quad { corner: Vec3::new(max.x(), min.y(), max.z()), u: dz.neg(), v: dy, material },
    );
    sides.push(
        Shape::Quad { corner: Vec3::new(max.x(), min.y(), min.z()), u: dx.neg(), v: dy, material },
    );
    sides.push(
        Shape::Quad { corner: Vec3::new(min.x(), min.y(), min.z()), u: dz, v: dy, material },
    );
    sides.push(
        Shape::Quad { corner: Vec3::new(min.x(), max.y(), max.z()), u: dx, v: dz.neg(), material },
    );
    sides.push(
        Shape::Quad { corner: Vec3::new(min.x(), min.y(), min.z()), u: dx, v: dz, material },
    );
    proof {
        let want = box_sides(min, max, x_size, y_size, z_size, material);
        assert(sides@ =~= want);
        assert(edges_measured(a, b, *size, x_size, y_size, z_size));
    }
    sides
}

} // verus!
