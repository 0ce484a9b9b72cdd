use crate::aabb::AABB;
use crate::hittable::{later_or, narrowed, HitRecord};
use crate::interval::Interval;
use crate::ray::Ray;
use rand::rngs::StdRng;
use rand::Rng;
use vstd::prelude::*;

verus! {

/// A list of objects, each known by its bounding box and by its position in
/// the list, with the box around them all.
pub struct HittableList {
    objects: Vec<AABB>,
    bbox: AABB,
}

impl View for HittableList {
    type V = Seq<AABB>;

    /// The boxes of the objects, in the order in which they were added.
    closed spec fn view(&self) -> Seq<AABB> {
        self.objects@
    }
}

/// What testing the first `n` objects in turn may report, each of them in
/// `ray_t` cut off at the hit found so far: `out` is the last hit that an
/// object reported.
pub open spec fn scan_outcome<L>(
    n: nat,
    r: Ray,
    ray_t: Interval,
    leaf_hit: L,
    out: Option<HitRecord>,
) -> bool where L: Fn(usize, &Ray, &Interval) -> Option<HitRecord>
    decreases n,
{
    if n == 0 {
        out is None
    } else {
        exists|before: Option<HitRecord>, last: Option<HitRecord>|
            {
                &&& scan_outcome((n - 1) as nat, r, ray_t, leaf_hit, before)
                &&& call_ensures(leaf_hit, ((n - 1) as usize, &r, &narrowed(ray_t, before)), last)
                &&& out == #[trigger] later_or(before, last)
            }
    }
}

/// The random number generator `rand::rngs::StdRng`, which is seeded by its
/// user. Nothing is known of its state.
#[verifier::external_type_specification]
#[verifier::external_body]
pub struct ExStdRng(StdRng);

/// `rand::Rng::gen_range` on the range `0..n`: some index below `n`, which
/// depends on the state of the generator. An empty range makes it panic.
#[verifier::external_body]
fn random_below(rng: &mut StdRng, n: usize) -> (i: usize)
    requires
        n > 0,
    ensures
        i < n,
{
    rng.gen_range(0..n)
}

impl HittableList {
    /// The box around all objects, as `add` has grown it.
    pub closed spec fn bounds(self) -> AABB {
        self.bbox
    }

    pub fn new() -> (list: HittableList)
        ensures
            list@ == Seq::<AABB>::empty(),
            list.bounds() == AABB::empty_spec(),
    {
        HittableList { objects: Vec::new(), bbox: AABB::empty() }
    }

    /// Removes the objects. The box stays as it was.
    pub fn clear(&mut self)
        ensures
            final(self)@ == Seq::<AABB>::empty(),
            final(self).bounds() == old(self).bounds(),
    {
        self.objects.clear();
    }

    /// Appends the object whose box is `object`, and grows the list's box to
    /// what `around` makes of it and the object's.
    pub fn add<U>(&mut self, object: AABB, around: &U) where U: Fn(&AABB, &AABB) -> AABB
        requires
            call_requires(*around, (&old(self).bounds(), &object)),
        ensures
            final(self)@ == old(self)@.push(object),
            call_ensures(*around, (&old(self).bounds(), &object), final(self).bounds()),
    {
        self.bbox = around(&self.bbox, &object);
        self.objects.push(object);
    }

    /// The boxes of the objects.
    pub fn objects(&self) -> (boxes: &Vec<AABB>)
        ensures
            boxes@ == self@,
    {
        &self.objects
    }

    pub fn bounding_box(&self) -> (b: &AABB)
        ensures
            *b == self.bounds(),
    {
        &self.bbox
    }

    /// Tests every object in turn and reports the nearest hit: each object
    /// is tested by `leaf_hit` in `ray_t` cut off at the hit found so far.
    /// `rec` is written only where the result is `true`.
    pub fn hit<L>(&self, r: &Ray, ray_t: &Interval, rec: &mut HitRecord, leaf_hit: &L) -> (b: bool) where
        L: Fn(usize, &Ray, &Interval) -> Option<HitRecord>,

        requires
            forall|i: usize, iv: Interval| i < self@.len() ==> call_requires(*leaf_hit, (i, r, &iv)),
        ensures
            scan_outcome(
                self@.len(),
                *r,
                *ray_t,
                *leaf_hit,
                if b {
                    Some(*final(rec))
                } else {
                    None
                },
            ),
            !b ==> *final(rec) == *old(rec),
    {
        let mut found: Option<HitRecord> = None;
        let mut i: usize = 0;
        while i < self.objects.len()
            invariant
                i <= self.objects.len(),
                forall|k: usize, iv: Interval|
                    k < self@.len() ==> call_requires(*leaf_hit, (k, r, &iv)),
                scan_outcome(i as nat, *r, *ray_t, *leaf_hit, found),
            decreases self.objects.len() - i,
        {
            let rest = Interval::new(
                ray_t.min,
                match found {
                    Some(nearest) => nearest.t,
                    None => ray_t.max,
                },
            );
            assert(rest == narrowed(*ray_t, found));
            let last = leaf_hit(i, r, &rest);
            let next = if last.is_some() {
                last
            } else {
                found
            };
            assert(next == later_or(found, last));
            found = next;
            i = i + 1;
        }
        match found {
            Some(nearest) => {
                *rec = nearest;
                true
            },
            None => false,
        }
    }

    /// The position of one object, drawn at random from `rng`: the object
    /// towards which a direction is then sampled. The list must hold an
    /// object.
    pub fn random(&self, rng: &mut StdRng) -> (i: usize)
        requires
            self@.len() > 0,
        ensures
            i < self@.len(),
    {
        random_below(rng, self.objects.len())
    }
}

impl Default for HittableList {
    fn default() -> (list: HittableList)
        ensures
            list@ == Seq::<AABB>::empty(),
            list.bounds() == AABB::empty_spec(),
    {
        HittableList::new()
    }
}

} // verus!
