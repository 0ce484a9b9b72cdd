use crate::interval::Interval;
use crate::scalar::Scalar;
use crate::vec3::Point3;
use vstd::prelude::*;

verus! {

/// An axis-aligned box: one interval for each of the axes x, y and z.
#[derive(Clone, Copy, Debug)]
pub struct AABB {
    pub x: Interval,
    pub y: Interval,
    pub z: Interval,
}

/// What a ray's line has to do with the two planes that bound a box on one
/// axis: the parameters at which it meets the plane at the interval's `min`
/// (`t0`) and at its `max` (`t1`), and the reciprocal of the ray's direction
/// on that axis.
#[derive(Clone, Copy, Debug)]
pub struct Slab {
    pub inv_dir: Scalar,
    pub t0: Scalar,
    pub t1: Scalar,
}

impl Slab {
    /// The parameter at which the ray enters the slab: `t1` where the ray runs
    /// against the axis, else `t0`.
    pub open spec fn entry(self) -> Scalar {
        if self.inv_dir.lt_spec(Scalar { bits: 0 }) {
            self.t1
        } else {
            self.t0
        }
    }

    /// The parameter at which the ray leaves the slab.
    pub open spec fn exit(self) -> Scalar {
        if self.inv_dir.lt_spec(Scalar { bits: 0 }) {
            self.t0
        } else {
            self.t1
        }
    }

    /// `ray_t` cut down to the part of the ray inside the slab.
    pub open spec fn clip(self, ray_t: Interval) -> Interval {
        Interval {
            min: if ray_t.min.lt_spec(self.entry()) {
                self.entry()
            } else {
                ray_t.min
            },
            max: if self.exit().lt_spec(ray_t.max) {
                self.exit()
            } else {
                ray_t.max
            },
        }
    }
}

/// The least length of a box on any axis, 0.0001: an interval that is no
/// longer than this is widened by it.
pub const PADDING_BITS: u32 = 0x38d1_b717;

/// `out` is `iv` padded: `iv` itself where `size` finds it longer than the
/// least length, else what `expand` makes of it and the least length.
pub open spec fn padded<Z, E>(iv: Interval, out: Interval, size: Z, expand: E) -> bool where
    Z: Fn(&Interval) -> Scalar,
    E: Fn(&Interval, Scalar) -> Interval,
 {
    let delta = Scalar { bits: PADDING_BITS };
    exists|length: Scalar| #[trigger]
        call_ensures(size, (&iv,), length) && if length.le_spec(delta) {
            call_ensures(expand, (&iv, delta), out)
        } else {
            out == iv
        }
}

/// The length of every interval can be taken and every interval widened.
pub open spec fn paddable<Z, E>(size: Z, expand: E) -> bool where
    Z: Fn(&Interval) -> Scalar,
    E: Fn(&Interval, Scalar) -> Interval,
 {
    &&& forall|iv: Interval| call_requires(size, (&iv,))
    &&& forall|iv: Interval, delta: Scalar| call_requires(expand, (&iv, delta))
}

/// The interval between two coordinates, whichever of them is the smaller;
/// from `b` to `a` where they do not compare.
pub open spec fn between(a: Scalar, b: Scalar) -> Interval {
    if a.le_spec(b) {
        Interval { min: a, max: b }
    } else {
        Interval { min: b, max: a }
    }
}

/// An interval that holds no parameter for a hit: its `max` is not above its
/// `min`.
pub open spec fn exhausted(iv: Interval) -> bool {
    iv.max.le_spec(iv.min)
}

impl AABB {
    pub open spec fn axis_interval_spec(self, axis: usize) -> Interval {
        if axis == 0 {
            self.x
        } else if axis == 1 {
            self.y
        } else {
            self.z
        }
    }

    /// The box of three empty intervals.
    pub open spec fn empty_spec() -> AABB {
        AABB { x: Interval::empty_spec(), y: Interval::empty_spec(), z: Interval::empty_spec() }
    }

    /// The axis on which a box of the given extents is longest: x where it is
    /// longer than both others, else y where it is longer than z, else z.
    pub open spec fn longest_axis_spec(x_size: Scalar, y_size: Scalar, z_size: Scalar) -> usize {
        if y_size.lt_spec(x_size) {
            if z_size.lt_spec(x_size) {
                0
            } else {
                2
            }
        } else if z_size.lt_spec(y_size) {
            1
        } else {
            2
        }
    }

    /// The number of axes, taken in the order x, y, z, after which `ray_t`,
    /// clipped to one slab after the other, is exhausted; 3 where it never is.
    pub open spec fn first_miss(slabs: [Slab; 3], ray_t: Interval) -> int {
        let a = slabs[0].clip(ray_t);
        let b = slabs[1].clip(a);
        let c = slabs[2].clip(b);
        if exhausted(a) {
            0
        } else if exhausted(b) {
            1
        } else if exhausted(c) {
            2
        } else {
            3
        }
    }

    /// `ray_t` after the slab test: clipped to every slab up to and including
    /// the one that exhausted it.
    pub open spec fn clipped(slabs: [Slab; 3], ray_t: Interval) -> Interval {
        let a = slabs[0].clip(ray_t);
        let b = slabs[1].clip(a);
        let c = slabs[2].clip(b);
        if exhausted(a) {
            a
        } else if exhausted(b) {
            b
        } else {
            c
        }
    }

    /// `out` is `self` with each of its intervals padded.
    pub open spec fn padded_to<Z, E>(self, out: AABB, size: Z, expand: E) -> bool where
        Z: Fn(&Interval) -> Scalar,
        E: Fn(&Interval, Scalar) -> Interval,
     {
        &&& padded(self.x, out.x, size, expand)
        &&& padded(self.y, out.y, size, expand)
        &&& padded(self.z, out.z, size, expand)
    }

    /// `out` is `self` padded twice over.
    pub open spec fn padded_twice_to<Z, E>(self, out: AABB, size: Z, expand: E) -> bool where
        Z: Fn(&Interval) -> Scalar,
        E: Fn(&Interval, Scalar) -> Interval,
     {
        exists|once: AABB| #[trigger]
            self.padded_to(once, size, expand) && once.padded_to(out, size, expand)
    }

    /// The box of the three intervals between the coordinates of two points.
    pub open spec fn span(a: Point3, b: Point3) -> AABB {
        AABB {
            x: between(a.0[0], b.0[0]),
            y: between(a.0[1], b.0[1]),
            z: between(a.0[2], b.0[2]),
        }
    }

    /// The box of the three unions of the intervals of two boxes.
    pub open spec fn union(a: AABB, b: AABB) -> AABB {
        AABB {
            x: Interval::around_intervals_spec(a.x, b.x),
            y: Interval::around_intervals_spec(a.y, b.y),
            z: Interval::around_intervals_spec(a.z, b.z),
        }
    }

    fn pad_interval<Z, E>(iv: Interval, size: &Z, expand: &E) -> (out: Interval) where
        Z: Fn(&Interval) -> Scalar,
        E: Fn(&Interval, Scalar) -> Interval,

        requires
            paddable(*size, *expand),
        ensures
            padded(iv, out, *size, *expand),
    {
        let delta = Scalar::from_bits(PADDING_BITS);
        let length = size(&iv);
        if length.le(delta) {
            expand(&iv, delta)
        } else {
            iv
        }
    }

    fn pad_to_minimum<Z, E>(self, size: &Z, expand: &E) -> (out: AABB) where
        Z: Fn(&Interval) -> Scalar,
        E: Fn(&Interval, Scalar) -> Interval,

        requires
            paddable(*size, *expand),
        ensures
            self.padded_to(out, *size, *expand),
    {
        AABB {
            x: Self::pad_interval(self.x, size, expand),
            y: Self::pad_interval(self.y, size, expand),
            z: Self::pad_interval(self.z, size, expand),
        }
    }

    /// The box of three intervals, each padded to the least length. The
    /// arithmetic is the caller's: `size` gives the length of an interval and
    /// `expand` an interval widened by a given length.
    pub fn new<Z, E>(x: Interval, y: Interval, z: Interval, size: &Z, expand: &E) -> (out: AABB) where
        Z: Fn(&Interval) -> Scalar,
        E: Fn(&Interval, Scalar) -> Interval,

        requires
            paddable(*size, *expand),
        ensures
            (AABB { x, y, z }).padded_to(out, *size, *expand),
    {
        (AABB { x, y, z }).pad_to_minimum(size, expand)
    }

    /// The padded box that has `a` and `b` for opposite corners.
    pub fn around_points<Z, E>(a: Point3, b: Point3, size: &Z, expand: &E) -> (out: AABB) where
        Z: Fn(&Interval) -> Scalar,
        E: Fn(&Interval, Scalar) -> Interval,

        requires
            paddable(*size, *expand),
        ensures
            Self::span(a, b).padded_twice_to(out, *size, *expand),
    {
        let x = if a.x().le(b.x()) {
            Interval::new(a.x(), b.x())
        } else {
            Interval::new(b.x(), a.x())
        };
        let y = if a.y().le(b.y()) {
            Interval::new(a.y(), b.y())
        } else {
            Interval::new(b.y(), a.y())
        };
        let z = if a.z().le(b.z()) {
            Interval::new(a.z(), b.z())
        } else {
            Interval::new(b.z(), a.z())
        };
        let once = Self::new(x, y, z, size, expand);
        let out = once.pad_to_minimum(size, expand);
        assert(Self::span(a, b).padded_to(once, *size, *expand));
        out
    }

    /// The padded box around two boxes.
    pub fn around_boxes<Z, E>(a: &AABB, b: &AABB, size: &Z, expand: &E) -> (out: AABB) where
        Z: Fn(&Interval) -> Scalar,
        E: Fn(&Interval, Scalar) -> Interval,

        requires
            paddable(*size, *expand),
        ensures
            Self::union(*a, *b).padded_twice_to(out, *size, *expand),
    {
        let x = Interval::around_intervals(&a.x, &b.x);
        let y = Interval::around_intervals(&a.y, &b.y);
        let z = Interval::around_intervals(&a.z, &b.z);
        let once = Self::new(x, y, z, size, expand);
        let out = once.pad_to_minimum(size, expand);
        assert(Self::union(*a, *b).padded_to(once, *size, *expand));
        out
    }

    /// The interval of the box on the axis 0 (x), 1 (y) or 2 (z).
    pub fn axis_interval(&self, axis: usize) -> (iv: &Interval)
        requires
            axis < 3,
        ensures
            *iv == self.axis_interval_spec(axis),
    {
        if axis == 0 {
            &self.x
        } else if axis == 1 {
            &self.y
        } else {
            &self.z
        }
    }

    pub fn empty() -> (b: AABB)
        ensures
            b == Self::empty_spec(),
    {
        AABB { x: Interval::empty(), y: Interval::empty(), z: Interval::empty() }
    }

    /// The split axis for a box whose intervals have the sizes given.
    pub fn longest_axis(x_size: Scalar, y_size: Scalar, z_size: Scalar) -> (axis: usize)
        ensures
            axis == Self::longest_axis_spec(x_size, y_size, z_size),
            axis < 3,
    {
        if x_size.gt(y_size) {
            if x_size.gt(z_size) {
                0
            } else {
                2
            }
        } else if y_size.gt(z_size) {
            1
        } else {
            2
        }
    }

    /// The slab test. The ray passes through the box where, clipped to the
    /// three slabs in turn, `ray_t` keeps a part with `min < max`. `ray_t` is
    /// narrowed to that part; where an axis exhausts it the test stops there.
    pub fn hit(slabs: &[Slab; 3], ray_t: &mut Interval) -> (b: bool)
        ensures
            b == (Self::first_miss(*slabs, *old(ray_t)) == 3),
            *final(ray_t) == Self::clipped(*slabs, *old(ray_t)),
    {
        let zero = Scalar::zero();
        let mut axis: usize = 0;
        while axis < 3
            invariant
                axis <= 3,
                zero.bits == 0,
                axis == 0 ==> *ray_t == *old(ray_t),
                axis == 1 ==> *ray_t == slabs[0].clip(*old(ray_t)) && !exhausted(*ray_t),
                axis == 2 ==> *ray_t == slabs[1].clip(slabs[0].clip(*old(ray_t))) && !exhausted(
                    slabs[0].clip(*old(ray_t)),
                ) && !exhausted(*ray_t),
                axis == 3 ==> *ray_t == slabs[2].clip(slabs[1].clip(slabs[0].clip(*old(ray_t))))
                    && !exhausted(slabs[0].clip(*old(ray_t))) && !exhausted(
                    slabs[1].clip(slabs[0].clip(*old(ray_t))),
                ) && !exhausted(*ray_t),
            decreases 3 - axis,
        {
            let slab = slabs[axis];
            let (t0, t1) = if slab.inv_dir.lt(zero) {
                (slab.t1, slab.t0)
            } else {
                (slab.t0, slab.t1)
            };
            if t0.gt(ray_t.min) {
                ray_t.min = t0;
            }
            if t1.lt(ray_t.max) {
                ray_t.max = t1;
            }
            if ray_t.max.le(ray_t.min) {
                return false;
            }
            axis = axis + 1;
        }
        true
    }
}

impl Default for AABB {
    fn default() -> (b: AABB)
        ensures
            b == AABB::empty_spec(),
    {
        AABB::empty()
    }
}

/// The padding invariant: a padded interval has a length above zero, for
/// every interval that `expand` can widen at all, which is to say where the
/// widened interval has a length above zero. (Far from the origin the least
/// length is lost in rounding, and `expand` returns what it was given.)
pub proof fn lemma_padded_has_length<Z, E>(iv: Interval, out: Interval, size: Z, expand: E) where
    Z: Fn(&Interval) -> Scalar,
    E: Fn(&Interval, Scalar) -> Interval,

    requires
        padded(iv, out, size, expand),
        forall|i: Interval, a: Scalar, b: Scalar|
            call_ensures(size, (&i,), a) && call_ensures(size, (&i,), b) ==> a == b,
        forall|wide: Interval, length: Scalar|
            call_ensures(expand, (&iv, Scalar { bits: PADDING_BITS }), wide) && call_ensures(
                size,
                (&wide,),
                length,
            ) ==> (Scalar { bits: 0 }).lt_spec(length),
    ensures
        forall|length: Scalar| #[trigger]
            call_ensures(size, (&out,), length) && !length.nan() ==> (Scalar { bits: 0 }).lt_spec(
                length,
            ),
{
    let given = choose|given: Scalar| #[trigger]
        call_ensures(size, (&iv,), given) && if given.le_spec(Scalar { bits: PADDING_BITS }) {
            call_ensures(expand, (&iv, Scalar { bits: PADDING_BITS }), out)
        } else {
            out == iv
        };
    assert forall|length: Scalar| #[trigger]
        call_ensures(size, (&out,), length) && !length.nan() implies (Scalar { bits: 0 }).lt_spec(
        length,
    ) by {
        if !given.le_spec(Scalar { bits: PADDING_BITS }) {
            assert(length == given);
        }
    }
}

/// Among extents that are numbers, no axis is longer than the one chosen.
pub proof fn lemma_longest_axis_is_longest(x_size: Scalar, y_size: Scalar, z_size: Scalar)
    requires
        !x_size.nan() && !y_size.nan() && !z_size.nan(),
    ensures
        ({
            let sizes = [x_size, y_size, z_size];
            let a = AABB::longest_axis_spec(x_size, y_size, z_size);
            forall|i: int| 0 <= i < 3 ==> (#[trigger] sizes[i]).le_spec(sizes[a as int])
        }),
{
}

/// A parameter that the slab test leaves in `ray_t` was in `ray_t` before and
/// lies, on every axis, between the entry and the exit of the slab; and a
/// parameter for which that holds, strictly, makes the test succeed.
pub proof fn lemma_slab_test(slabs: [Slab; 3], ray_t: Interval, t: Scalar)
    requires
        !ray_t.min.nan() && !ray_t.max.nan(),
        forall|i: int| 0 <= i < 3 ==> !(#[trigger] slabs[i]).t0.nan() && !slabs[i].t1.nan(),
    ensures
        AABB::first_miss(slabs, ray_t) == 3 && AABB::clipped(slabs, ray_t).contains_spec(t)
            ==> ray_t.contains_spec(t) && forall|i: int|
            0 <= i < 3 ==> (#[trigger] slabs[i]).entry().le_spec(t) && t.le_spec(slabs[i].exit()),
        ray_t.surrounds_spec(t) && (forall|i: int|
            0 <= i < 3 ==> (#[trigger] slabs[i]).entry().lt_spec(t) && t.lt_spec(slabs[i].exit()))
            ==> AABB::first_miss(slabs, ray_t) == 3 && AABB::clipped(slabs, ray_t).surrounds_spec(
            t,
        ),
{
    assert(slabs[0].entry() == slabs[0].entry());
    assert(slabs[1].entry() == slabs[1].entry());
    assert(slabs[2].entry() == slabs[2].entry());
}

} // verus!
