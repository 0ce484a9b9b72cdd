use crate::aabb::AABB;
use crate::scalar::Scalar;
use crate::vec3::{Point3, Vec3};
use vstd::prelude::*;

verus! {

/// The turn of an object about the y axis: the sine and the cosine of the
/// angle, and the box around the turned object.
#[derive(Clone, Copy, Debug)]
pub struct RotateY {
    pub sin_theta: Scalar,
    pub cos_theta: Scalar,
    pub bbox: AABB,
}

/// The least coordinate on `axis` among the first `n` of `corners`, starting
/// from `start`: a corner takes the place of what is held where it is below
/// it.
pub open spec fn least(corners: [Point3; 8], axis: int, n: nat, start: Scalar) -> Scalar
    decreases n,
{
    if n == 0 {
        start
    } else {
        let held = least(corners, axis, (n - 1) as nat, start);
        let next = corners[n - 1].0[axis];
        if next.lt_spec(held) {
            next
        } else {
            held
        }
    }
}

/// The greatest coordinate on `axis` among the first `n` of `corners`,
/// starting from `start`.
pub open spec fn greatest(corners: [Point3; 8], axis: int, n: nat, start: Scalar) -> Scalar
    decreases n,
{
    if n == 0 {
        start
    } else {
        let held = greatest(corners, axis, (n - 1) as nat, start);
        let next = corners[n - 1].0[axis];
        if held.lt_spec(next) {
            next
        } else {
            held
        }
    }
}

impl RotateY {
    /// The least and the greatest coordinates, axis by axis, of the eight
    /// corners of a box after the turn: the two opposite corners of the box
    /// around the turned box.
    pub fn bounding_box(&self) -> (b: &AABB)
        ensures
            *b == self.bbox,
    {
        &self.bbox
    }

    pub fn extent(corners: &[Point3; 8]) -> (ends: (Point3, Point3))
        ensures
            forall|c: int|
                0 <= c < 3 ==> (#[trigger] ends.0.0[c]) == least(
                    *corners,
                    c,
                    8,
                    Scalar { bits: 0x7f80_0000 },
                ),
            forall|c: int|
                0 <= c < 3 ==> (#[trigger] ends.1.0[c]) == greatest(
                    *corners,
                    c,
                    8,
                    Scalar { bits: 0xff80_0000 },
                ),
    {
        let mut min: [Scalar; 3] = [Scalar::infinity(), Scalar::infinity(), Scalar::infinity()];
        let mut max: [Scalar; 3] = [
            Scalar::neg_infinity(),
            Scalar::neg_infinity(),
            Scalar::neg_infinity(),
        ];
        let mut k: usize = 0;
        while k < 8
            invariant
                k <= 8,
                forall|c: int|
                    0 <= c < 3 ==> (#[trigger] min[c]) == least(
                        *corners,
                        c,
                        k as nat,
                        Scalar { bits: 0x7f80_0000 },
                    ),
                forall|c: int|
                    0 <= c < 3 ==> (#[trigger] max[c]) == greatest(
                        *corners,
                        c,
                        k as nat,
                        Scalar { bits: 0xff80_0000 },
                    ),
            decreases 8 - k,
        {
            let tester = corners[k];
            let mut c: usize = 0;
            while c < 3
                invariant
                    c <= 3,
                    k < 8,
                    tester == corners[k as int],
                    forall|a: int|
                        0 <= a < 3 ==> (#[trigger] min[a]) == least(
                            *corners,
                            a,
                            if a < c {
                                (k + 1) as nat
                            } else {
                                k as nat
                            },
                            Scalar { bits: 0x7f80_0000 },
                        ),
                    forall|a: int|
                        0 <= a < 3 ==> (#[trigger] max[a]) == greatest(
                            *corners,
                            a,
                            if a < c {
                                (k + 1) as nat
                            } else {
                                k as nat
                            },
                            Scalar { bits: 0xff80_0000 },
                        ),
                decreases 3 - c,
            {
                if tester.0[c].gt(max[c]) {
                    max[c] = tester.0[c];
                }
                if tester.0[c].lt(min[c]) {
                    min[c] = tester.0[c];
                }
                c = c + 1;
            }
            k = k + 1;
        }
        (Vec3(min), Vec3(max))
    }
}

/// No corner that is a number lies outside the extent.
pub proof fn lemma_extent_bounds(corners: [Point3; 8], axis: int, n: nat, k: int)
    requires
        0 <= axis < 3,
        0 <= k < n <= 8,
        !corners[k].0[axis].nan(),
    ensures
        least(corners, axis, n, Scalar { bits: 0x7f80_0000 }).le_spec(corners[k].0[axis]),
        corners[k].0[axis].le_spec(greatest(corners, axis, n, Scalar { bits: 0xff80_0000 })),
    decreases n,
{
    lemma_extent_numbers(corners, axis, n);
    if k < n - 1 {
        lemma_extent_bounds(corners, axis, (n - 1) as nat, k);
    } else {
        lemma_extent_numbers(corners, axis, (n - 1) as nat);
    }
}

proof fn lemma_extent_numbers(corners: [Point3; 8], axis: int, n: nat)
    requires
        0 <= axis < 3,
        n <= 8,
    ensures
        !least(corners, axis, n, Scalar { bits: 0x7f80_0000 }).nan(),
        !greatest(corners, axis, n, Scalar { bits: 0xff80_0000 }).nan(),
    decreases n,
{
    if n > 0 {
        lemma_extent_numbers(corners, axis, (n - 1) as nat);
    }
}

} // verus!
