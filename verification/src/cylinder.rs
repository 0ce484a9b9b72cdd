use crate::aabb::AABB;
use crate::interval::Interval;
use crate::scalar::Scalar;
use crate::vec3::Vec3;
use vstd::prelude::*;

verus! {

/// An upright cylinder: the centre of its bottom cap, its radius and its
/// height.
#[derive(Clone, Copy, Debug)]
pub struct Cylinder {
    pub center: Vec3,
    pub radius: Scalar,
    pub height: Scalar,
    pub bbox: AABB,
    pub mat: Option<usize>,
}

/// The difference between 1 and the next number: below this in magnitude a
/// number counts as zero.
pub const EPSILON_BITS: u32 = 0x3400_0000;

/// One place at which a ray crosses the side of the cylinder's shell: the
/// ray's parameter there and the height of the point.
#[derive(Clone, Copy, Debug)]
pub struct Crossing {
    pub t: Scalar,
    pub y: Scalar,
}

/// One place at which a ray crosses the plane of a cap: the ray's parameter
/// there and the square of the point's distance from the axis.
#[derive(Clone, Copy, Debug)]
pub struct CapCrossing {
    pub t: Scalar,
    pub distance_squared: Scalar,
}

/// The part of the cylinder that a ray met.
#[derive(Clone, Copy, Debug)]
pub enum Part {
    Side,
    Cap,
}

impl Cylinder {
    /// A crossing counts: its parameter lies inside `ray_t` and its point
    /// between the heights `y_min` and `y_max`.
    pub open spec fn on_side(c: Crossing, y_min: Scalar, y_max: Scalar, ray_t: Interval) -> bool {
        ray_t.surrounds_spec(c.t) && y_min.le_spec(c.y) && c.y.le_spec(y_max)
    }

    /// The crossing of the side that a ray meets first: none where the ray
    /// runs along the axis, `a` being below epsilon in magnitude, or misses
    /// the shell, the discriminant being negative; else the first of the
    /// two crossings that counts, or the second where it counts and is
    /// nearer than the first.
    pub open spec fn side(
        a: Scalar,
        discriminant: Scalar,
        first: Crossing,
        second: Crossing,
        y_min: Scalar,
        y_max: Scalar,
        ray_t: Interval,
    ) -> Option<usize> {
        if a.abs_spec().lt_spec(Scalar { bits: EPSILON_BITS }) || discriminant.lt_spec(
            Scalar { bits: 0 },
        ) {
            None
        } else if Self::on_side(first, y_min, y_max, ray_t) {
            if Self::on_side(second, y_min, y_max, ray_t) && second.t.lt_spec(first.t) {
                Some(1usize)
            } else {
                Some(0usize)
            }
        } else if Self::on_side(second, y_min, y_max, ray_t) {
            Some(1usize)
        } else {
            None
        }
    }

    /// A crossing of a cap's plane counts: its parameter lies inside `ray_t`
    /// and its point within the radius.
    pub open spec fn on_cap(c: CapCrossing, radius_squared: Scalar, ray_t: Interval) -> bool {
        ray_t.surrounds_spec(c.t) && c.distance_squared.le_spec(radius_squared)
    }

    /// The cap that a ray meets: none where the ray runs level, its
    /// direction's y component being below epsilon in magnitude; else the
    /// bottom cap where its crossing counts, else the top cap where that
    /// one's does.
    pub open spec fn cap(
        direction_y: Scalar,
        bottom: CapCrossing,
        top: CapCrossing,
        radius_squared: Scalar,
        ray_t: Interval,
    ) -> Option<usize> {
        if direction_y.abs_spec().lt_spec(Scalar { bits: EPSILON_BITS }) {
            None
        } else if Self::on_cap(bottom, radius_squared, ray_t) {
            Some(0usize)
        } else if Self::on_cap(top, radius_squared, ray_t) {
            Some(1usize)
        } else {
            None
        }
    }

    /// The part that is reported of a ray that met the side at `side` and a
    /// cap at `cap`: the cap where its hit lies inside `ray_t` and is nearer
    /// than that of the side, or the side has none that lies inside `ray_t`;
    /// else the side.
    pub open spec fn part(side: Option<Scalar>, cap: Option<Scalar>, ray_t: Interval) -> Option<
        Part,
    > {
        let by_side = side matches Some(t) && ray_t.surrounds_spec(t);
        let by_cap = cap matches Some(t) && ray_t.surrounds_spec(t) && (!by_side || t.lt_spec(
            side->Some_0,
        ));
        if by_cap {
            Some(Part::Cap)
        } else if by_side {
            Some(Part::Side)
        } else {
            None
        }
    }

    /// The decision of the test against the side, on what the arithmetic
    /// found: the leading coefficient `a` and the discriminant of the
    /// quadratic and the two crossings. The result is 0 for the first
    /// crossing and 1 for the second.
    pub fn hit_sides(
        a: Scalar,
        discriminant: Scalar,
        crossings: &[Crossing; 2],
        y_min: Scalar,
        y_max: Scalar,
        ray_t: &Interval,
    ) -> (which: Option<usize>)
        ensures
            which == Self::side(a, discriminant, crossings[0], crossings[1], y_min, y_max, *ray_t),
    {
        if a.abs().lt(Scalar::from_bits(EPSILON_BITS)) {
            return None;
        }
        if discriminant.lt(Scalar::zero()) {
            return None;
        }
        let mut best_t = Scalar::infinity();
        let mut best: Option<usize> = None;
        let mut k: usize = 0;
        while k < 2
            invariant
                k <= 2,
                !a.abs_spec().lt_spec(Scalar { bits: EPSILON_BITS }),
                !discriminant.lt_spec(Scalar { bits: 0 }),
                k == 0 ==> best is None && best_t.bits == 0x7f80_0000,
                k == 1 ==> best == if Self::on_side(crossings[0], y_min, y_max, *ray_t) {
                    Some(0usize)
                } else {
                    None
                } && best_t == if best is Some {
                    crossings[0].t
                } else {
                    Scalar { bits: 0x7f80_0000 }
                },
                k == 2 ==> best == Self::side(
                    a,
                    discriminant,
                    crossings[0],
                    crossings[1],
                    y_min,
                    y_max,
                    *ray_t,
                ),
            decreases 2 - k,
        {
            let c = crossings[k];
            if ray_t.surrounds(c.t) && c.y.ge(y_min) && c.y.le(y_max) && c.t.lt(best_t) {
                best_t = c.t;
                best = Some(k);
            }
            k = k + 1;
        }
        best
    }

    /// The decision of the test against the caps. The result is 0 for the
    /// bottom cap and 1 for the top.
    pub fn hit_caps(
        direction_y: Scalar,
        crossings: &[CapCrossing; 2],
        radius_squared: Scalar,
        ray_t: &Interval,
    ) -> (which: Option<usize>)
        ensures
            which == Self::cap(direction_y, crossings[0], crossings[1], radius_squared, *ray_t),
    {
        if direction_y.abs().lt(Scalar::from_bits(EPSILON_BITS)) {
            return None;
        }
        let mut k: usize = 0;
        while k < 2
            invariant
                k <= 2,
                !direction_y.abs_spec().lt_spec(Scalar { bits: EPSILON_BITS }),
                forall|j: int|
                    0 <= j < k ==> !Self::on_cap(#[trigger] crossings[j], radius_squared, *ray_t),
            decreases 2 - k,
        {
            let c = crossings[k];
            if ray_t.surrounds(c.t) && c.distance_squared.le(radius_squared) {
                return Some(k);
            }
            k = k + 1;
        }
        None
    }

    /// Which of the hits on the side and on a cap is reported.
    pub fn hit(side: Option<Scalar>, cap: Option<Scalar>, ray_t: &Interval) -> (part: Option<Part>)
        ensures
            part == Self::part(side, cap, *ray_t),
    {
        let mut closest_t = Scalar::infinity();
        let mut found: Option<Part> = None;
        if let Some(t) = side {
            if t.lt(closest_t) && ray_t.surrounds(t) {
                closest_t = t;
                found = Some(Part::Side);
            }
        }
        if let Some(t) = cap {
            if t.lt(closest_t) && ray_t.surrounds(t) {
                found = Some(Part::Cap);
            }
        }
        found
    }

    pub fn bounding_box(&self) -> (b: &AABB)
        ensures
            *b == self.bbox,
    {
        &self.bbox
    }
}

} // verus!
