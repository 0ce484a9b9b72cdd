use crate::aabb::AABB;
use crate::hittable::{later_or, narrowed, HitRecord};
use crate::interval::Interval;
use crate::ray::Ray;
use vstd::prelude::*;

verus! {

/// What hangs below a node: one object of the scene, by its index, or
/// another node.
pub enum BvhChild {
    Leaf(usize),
    Node(Box<BvhNode>),
}

/// A node of the bounding volume hierarchy.
pub struct BvhNode {
    pub left: BvhChild,
    pub right: BvhChild,
    pub bbox: AABB,
}

impl BvhChild {
    /// The objects below, from left to right.
    pub open spec fn leaves(self) -> Seq<usize>
        decreases self,
    {
        match self {
            BvhChild::Leaf(i) => seq![i],
            BvhChild::Node(n) => n.leaves(),
        }
    }

    /// The tests of the ray `r` can be made of what hangs here; see
    /// `BvhNode::callable`.
    pub open spec fn callable<B, L>(self, r: Ray, box_hit: B, leaf_hit: L) -> bool where
        B: Fn(&AABB, &Ray, &Interval) -> bool,
        L: Fn(usize, &Ray, &Interval) -> Option<HitRecord>,

        decreases self,
    {
        match self {
            BvhChild::Leaf(i) => forall|iv: Interval| call_requires(leaf_hit, (i, &r, &iv)),
            BvhChild::Node(n) => n.callable(r, box_hit, leaf_hit),
        }
    }

    /// What testing what hangs here may report: for an object what
    /// `leaf_hit` may return for it, for a node see `BvhNode::hit_outcome`.
    pub open spec fn hit_outcome<B, L>(
        self,
        r: Ray,
        ray_t: Interval,
        box_hit: B,
        leaf_hit: L,
        out: Option<HitRecord>,
    ) -> bool where
        B: Fn(&AABB, &Ray, &Interval) -> bool,
        L: Fn(usize, &Ray, &Interval) -> Option<HitRecord>,

        decreases self,
    {
        match self {
            BvhChild::Leaf(i) => call_ensures(leaf_hit, (i, &r, &ray_t), out),
            BvhChild::Node(n) => n.hit_outcome(r, ray_t, box_hit, leaf_hit, out),
        }
    }
}

impl BvhNode {
    /// The objects below, from left to right.
    pub open spec fn leaves(self) -> Seq<usize>
        decreases self,
    {
        self.left.leaves() + self.right.leaves()
    }

    /// What the traversal of the node may report for a ray, `out`: no hit
    /// where the test of the node's box may fail; else the hit of the right
    /// side where it has one, and else that of the left side, the left side
    /// being tested in `ray_t` and the right side in `ray_t` cut off at the
    /// hit of the left.
    pub open spec fn hit_outcome<B, L>(
        self,
        r: Ray,
        ray_t: Interval,
        box_hit: B,
        leaf_hit: L,
        out: Option<HitRecord>,
    ) -> bool where
        B: Fn(&AABB, &Ray, &Interval) -> bool,
        L: Fn(usize, &Ray, &Interval) -> Option<HitRecord>,

        decreases self,
    {
        ||| call_ensures(box_hit, (&self.bbox, &r, &ray_t), false) && out is None
        ||| call_ensures(box_hit, (&self.bbox, &r, &ray_t), true) && exists|
            first: Option<HitRecord>,
            second: Option<HitRecord>,
        |
            {
                &&& self.left.hit_outcome(r, ray_t, box_hit, leaf_hit, first)
                &&& self.right.hit_outcome(r, narrowed(ray_t, first), box_hit, leaf_hit, second)
                &&& out == #[trigger] later_or(first, second)
            }
    }

    /// The tests of the ray `r` can be made, in every interval, of the box
    /// of the node and of every node below it and of every object below it.
    pub open spec fn callable<B, L>(self, r: Ray, box_hit: B, leaf_hit: L) -> bool where
        B: Fn(&AABB, &Ray, &Interval) -> bool,
        L: Fn(usize, &Ray, &Interval) -> Option<HitRecord>,

        decreases self,
    {
        &&& forall|iv: Interval| call_requires(box_hit, (&self.bbox, &r, &iv))
        &&& self.left.callable(r, box_hit, leaf_hit)
        &&& self.right.callable(r, box_hit, leaf_hit)
    }

    /// The traversal: the nearest hit of a ray among the objects below the
    /// node, as `rec`, where there is one. A node whose box the ray misses,
    /// by `box_hit`, is passed over with all that hangs below it; else its
    /// left side is tested first and its right side only up to the hit of
    /// the left, so that a hit of the right side is the nearer. Objects are
    /// tested by `leaf_hit`. `rec` is written only where the result is
    /// `true`.
    pub fn hit<B, L>(
        &self,
        r: &Ray,
        ray_t: &Interval,
        rec: &mut HitRecord,
        box_hit: &B,
        leaf_hit: &L,
    ) -> (b: bool) where
        B: Fn(&AABB, &Ray, &Interval) -> bool,
        L: Fn(usize, &Ray, &Interval) -> Option<HitRecord>,

        requires
            self.callable(*r, *box_hit, *leaf_hit),
        ensures
            self.hit_outcome(
                *r,
                *ray_t,
                *box_hit,
                *leaf_hit,
                if b {
                    Some(*final(rec))
                } else {
                    None
                },
            ),
            !b ==> *final(rec) == *old(rec),
        decreases self,
    {
        if !box_hit(&self.bbox, r, ray_t) {
            return false;
        }
        let first = match &self.left {
            BvhChild::Leaf(i) => leaf_hit(*i, r, ray_t),
            BvhChild::Node(n) => {
                let mut found = *rec;
                if n.hit(r, ray_t, &mut found, box_hit, leaf_hit) {
                    Some(found)
                } else {
                    None
                }
            },
        };
        let rest = Interval::new(
            ray_t.min,
            match first {
                Some(found) => found.t,
                None => ray_t.max,
            },
        );
        let second = match &self.right {
            BvhChild::Leaf(i) => leaf_hit(*i, r, &rest),
            BvhChild::Node(n) => {
                let mut found = *rec;
                if n.hit(r, &rest, &mut found, box_hit, leaf_hit) {
                    Some(found)
                } else {
                    None
                }
            },
        };
        let out = if second.is_some() {
            second
        } else {
            first
        };
        assert(out == later_or(first, second));
        match out {
            Some(found) => {
                *rec = found;
                true
            },
            None => false,
        }
    }
}

} // verus!
