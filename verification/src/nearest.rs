use crate::aabb::AABB;
use crate::bvh::{BvhChild, BvhNode};
use crate::hittable::{later_or, narrowed, HitRecord};
use crate::hittable_list::scan_outcome;
use crate::interval::Interval;
use crate::ray::Ray;
use crate::scalar::Scalar;
use vstd::prelude::*;

verus! {

/// `ray_t` with its upper end moved to `max`.
pub open spec fn up_to(ray_t: Interval, max: Scalar) -> Interval {
    Interval { min: ray_t.min, max }
}

/// The hit `h` where it lies below `max`, else none.
pub open spec fn cut(h: Option<HitRecord>, max: Scalar) -> Option<HitRecord> {
    match h {
        Some(rec) => if rec.t.lt_spec(max) {
            h
        } else {
            None
        },
        None => None,
    }
}

/// The test of single objects is that of a scene in which a ray meets object
/// `i` at `hits(i)`, a point in `ray_t`, or not at all: tested up to `max`,
/// an object reports its hit where that lies below `max`, and none where it
/// lies above; of a hit at `max` itself it may report either.
pub open spec fn faithful<L>(
    leaf_hit: L,
    r: Ray,
    ray_t: Interval,
    hits: spec_fn(usize) -> Option<HitRecord>,
) -> bool where L: Fn(usize, &Ray, &Interval) -> Option<HitRecord> {
    &&& forall|i: usize| (#[trigger] hits(i)) matches Some(rec) ==> ray_t.contains_spec(rec.t)
    &&& forall|i: usize, max: Scalar, out: Option<HitRecord>|
        max.le_spec(ray_t.max) && #[trigger] call_ensures(
            leaf_hit,
            (i, &r, &up_to(ray_t, max)),
            out,
        ) ==> match out {
            None => cut(hits(i), max) is None,
            Some(rec) => hits(i) == out && rec.t.le_spec(max),
        }
}

/// `out` is the nearest of the hits up to `max` of the objects `ids`: one of
/// their hits, not beyond `max`, with none of them nearer; or none, where no
/// object has a hit below `max`.
pub open spec fn nearest_below(
    out: Option<HitRecord>,
    ids: Set<usize>,
    hits: spec_fn(usize) -> Option<HitRecord>,
    max: Scalar,
) -> bool {
    match out {
        None => forall|i: usize| ids.contains(i) ==> cut(#[trigger] hits(i), max) is None,
        Some(rec) => {
            &&& rec.t.le_spec(max)
            &&& exists|i: usize| ids.contains(i) && #[trigger] hits(i) == Some(rec)
            &&& forall|i: usize|
                ids.contains(i) && (#[trigger] hits(i)) is Some ==> rec.t.le_spec(hits(i)->Some_0.t)
        },
    }
}

impl BvhChild {
    /// No box below turns a ray away that meets an object inside it; see
    /// `BvhNode::conservative`.
    pub open spec fn conservative<B>(
        self,
        box_hit: B,
        r: Ray,
        ray_t: Interval,
        hits: spec_fn(usize) -> Option<HitRecord>,
    ) -> bool where B: Fn(&AABB, &Ray, &Interval) -> bool
        decreases self,
    {
        match self {
            BvhChild::Leaf(_) => true,
            BvhChild::Node(n) => n.conservative(box_hit, r, ray_t, hits),
        }
    }
}

impl BvhNode {
    /// The box test never turns a ray away from a node below which it meets
    /// an object: where the test of a node's box up to `max` may fail, no
    /// object below that node has a hit below `max`.
    pub open spec fn conservative<B>(
        self,
        box_hit: B,
        r: Ray,
        ray_t: Interval,
        hits: spec_fn(usize) -> Option<HitRecord>,
    ) -> bool where B: Fn(&AABB, &Ray, &Interval) -> bool
        decreases self,
    {
        &&& self.left.conservative(box_hit, r, ray_t, hits)
        &&& self.right.conservative(box_hit, r, ray_t, hits)
        &&& forall|max: Scalar, i: usize|
            max.le_spec(ray_t.max) && #[trigger] call_ensures(
                box_hit,
                (&self.bbox, &r, &up_to(ray_t, max)),
                false,
            ) && self.leaves().to_set().contains(i) ==> cut(#[trigger] hits(i), max) is None
    }
}

/// The nearer of the nearest hit on one side, below `max`, and the nearest
/// on the other, below that one, is the nearest of both sides.
proof fn lemma_nearest_of_two(
    first: Option<HitRecord>,
    second: Option<HitRecord>,
    a: Set<usize>,
    b: Set<usize>,
    hits: spec_fn(usize) -> Option<HitRecord>,
    ray_t: Interval,
    max: Scalar,
)
    requires
        forall|i: usize| (#[trigger] hits(i)) matches Some(rec) ==> ray_t.contains_spec(rec.t),
        max.le_spec(ray_t.max),
        nearest_below(first, a, hits, max),
        nearest_below(second, b, hits, narrowed(up_to(ray_t, max), first).max),
    ensures
        nearest_below(later_or(first, second), a + b, hits, max),
{
    let out = later_or(first, second);
    let rest = narrowed(up_to(ray_t, max), first).max;
    match out {
        None => {
            assert(rest == max);
        },
        Some(rec) => {
            if second is Some {
                let i = choose|i: usize| b.contains(i) && #[trigger] hits(i) == Some(rec);
                assert((a + b).contains(i));
                assert forall|k: usize| (a + b).contains(k) && (#[trigger] hits(k)) is Some implies rec.t.le_spec(
                    hits(k)->Some_0.t,
                ) by {
                    let other = hits(k)->Some_0;
                    assert(ray_t.contains_spec(other.t));
                    if b.contains(k) {
                    } else {
                        assert(a.contains(k));
                        if first is Some {
                            assert(first->Some_0.t.le_spec(other.t));
                        } else {
                            assert(cut(hits(k), max) is None);
                        }
                    }
                }
            } else {
                let i = choose|i: usize| a.contains(i) && #[trigger] hits(i) == Some(rec);
                assert((a + b).contains(i));
                assert forall|k: usize| (a + b).contains(k) && (#[trigger] hits(k)) is Some implies rec.t.le_spec(
                    hits(k)->Some_0.t,
                ) by {
                    let other = hits(k)->Some_0;
                    assert(ray_t.contains_spec(other.t));
                    if a.contains(k) {
                    } else {
                        assert(b.contains(k));
                        assert(cut(hits(k), rest) is None);
                    }
                }
            }
        },
    }
}

impl BvhChild {
    proof fn lemma_nearest<B, L>(
        self,
        r: Ray,
        ray_t: Interval,
        max: Scalar,
        box_hit: B,
        leaf_hit: L,
        hits: spec_fn(usize) -> Option<HitRecord>,
        out: Option<HitRecord>,
    ) where B: Fn(&AABB, &Ray, &Interval) -> bool, L: Fn(usize, &Ray, &Interval) -> Option<HitRecord>
        requires
            faithful(leaf_hit, r, ray_t, hits),
            self.conservative(box_hit, r, ray_t, hits),
            max.le_spec(ray_t.max),
            self.hit_outcome(r, up_to(ray_t, max), box_hit, leaf_hit, out),
        ensures
            nearest_below(out, self.leaves().to_set(), hits, max),
        decreases self,
    {
        match self {
            BvhChild::Leaf(i) => {
                assert(call_ensures(leaf_hit, (i, &r, &up_to(ray_t, max)), out));
                assert(self.leaves() =~= seq![i]);
                assert(self.leaves()[0] == i);
                assert(self.leaves().to_set() =~= set![i]);
                if out is Some {
                    assert(self.leaves().to_set().contains(i) && hits(i) == out);
                }
            },
            BvhChild::Node(n) => {
                n.lemma_nearest(r, ray_t, max, box_hit, leaf_hit, hits, out);
            },
        }
    }
}

impl BvhNode {
    proof fn lemma_nearest<B, L>(
        self,
        r: Ray,
        ray_t: Interval,
        max: Scalar,
        box_hit: B,
        leaf_hit: L,
        hits: spec_fn(usize) -> Option<HitRecord>,
        out: Option<HitRecord>,
    ) where B: Fn(&AABB, &Ray, &Interval) -> bool, L: Fn(usize, &Ray, &Interval) -> Option<HitRecord>
        requires
            faithful(leaf_hit, r, ray_t, hits),
            self.conservative(box_hit, r, ray_t, hits),
            max.le_spec(ray_t.max),
            self.hit_outcome(r, up_to(ray_t, max), box_hit, leaf_hit, out),
        ensures
            nearest_below(out, self.leaves().to_set(), hits, max),
        decreases self,
    {
        let here = up_to(ray_t, max);
        if call_ensures(box_hit, (&self.bbox, &r, &here), false) && out is None {
        } else {
            let (first, second) = choose|first: Option<HitRecord>, second: Option<HitRecord>|
                {
                    &&& self.left.hit_outcome(r, here, box_hit, leaf_hit, first)
                    &&& self.right.hit_outcome(r, narrowed(here, first), box_hit, leaf_hit, second)
                    &&& out == #[trigger] later_or(first, second)
                };
            self.left.lemma_nearest(r, ray_t, max, box_hit, leaf_hit, hits, first);
            let rest = narrowed(here, first).max;
            assert(narrowed(here, first) == up_to(ray_t, rest));
            assert(rest.le_spec(ray_t.max));
            self.right.lemma_nearest(r, ray_t, rest, box_hit, leaf_hit, hits, second);
            lemma_nearest_of_two(
                first,
                second,
                self.left.leaves().to_set(),
                self.right.leaves().to_set(),
                hits,
                ray_t,
                max,
            );
            vstd::seq_lib::seq_to_set_distributes_over_add(self.left.leaves(), self.right.leaves());
        }
    }

    /// Pruning by boxes loses no hit. Where the test of single objects is
    /// faithful to a scene and no box test turns a ray away from an object
    /// that it meets, whatever the traversal of the hierarchy reports is the
    /// nearest hit among all the objects at its leaves.
    pub proof fn lemma_hit_is_nearest<B, L>(
        self,
        r: Ray,
        ray_t: Interval,
        box_hit: B,
        leaf_hit: L,
        hits: spec_fn(usize) -> Option<HitRecord>,
        out: Option<HitRecord>,
    ) where B: Fn(&AABB, &Ray, &Interval) -> bool, L: Fn(usize, &Ray, &Interval) -> Option<HitRecord>
        requires
            !ray_t.max.nan(),
            faithful(leaf_hit, r, ray_t, hits),
            self.conservative(box_hit, r, ray_t, hits),
            self.hit_outcome(r, ray_t, box_hit, leaf_hit, out),
        ensures
            nearest_below(out, self.leaves().to_set(), hits, ray_t.max),
    {
        assert(up_to(ray_t, ray_t.max) == ray_t);
        self.lemma_nearest(r, ray_t, ray_t.max, box_hit, leaf_hit, hits, out);
    }
}

proof fn lemma_scan_nearest<L>(
    n: nat,
    r: Ray,
    ray_t: Interval,
    leaf_hit: L,
    hits: spec_fn(usize) -> Option<HitRecord>,
    out: Option<HitRecord>,
) where L: Fn(usize, &Ray, &Interval) -> Option<HitRecord>
    requires
        n <= usize::MAX,
        !ray_t.max.nan(),
        faithful(leaf_hit, r, ray_t, hits),
        scan_outcome(n, r, ray_t, leaf_hit, out),
    ensures
        nearest_below(out, Set::new(|i: usize| i < n), hits, ray_t.max),
    decreases n,
{
    if n > 0 {
        let (before, last) = choose|before: Option<HitRecord>, last: Option<HitRecord>|
            {
                &&& scan_outcome((n - 1) as nat, r, ray_t, leaf_hit, before)
                &&& call_ensures(leaf_hit, ((n - 1) as usize, &r, &narrowed(ray_t, before)), last)
                &&& out == #[trigger] later_or(before, last)
            };
        lemma_scan_nearest((n - 1) as nat, r, ray_t, leaf_hit, hits, before);
        let rest = narrowed(ray_t, before).max;
        let i = (n - 1) as usize;
        assert(up_to(ray_t, ray_t.max) == ray_t);
        assert(narrowed(ray_t, before) == up_to(ray_t, rest));
        assert(rest.le_spec(ray_t.max));
        assert(call_ensures(leaf_hit, (i, &r, &up_to(ray_t, rest)), last));
        assert(nearest_below(last, set![i], hits, rest)) by {
            if last is Some {
                assert(set![i].contains(i) && hits(i) == last);
            }
        }
        lemma_nearest_of_two(
            before,
            last,
            Set::new(|k: usize| k < n - 1),
            set![i],
            hits,
            ray_t,
            ray_t.max,
        );
        assert(Set::new(|k: usize| k < n - 1) + set![i] =~= Set::new(|k: usize| k < n));
    }
}

/// The linear scan of a list reports the nearest hit among its objects,
/// where the test of single objects is faithful to a scene.
pub proof fn lemma_scan_is_nearest<L>(
    n: nat,
    r: Ray,
    ray_t: Interval,
    leaf_hit: L,
    hits: spec_fn(usize) -> Option<HitRecord>,
    out: Option<HitRecord>,
) where L: Fn(usize, &Ray, &Interval) -> Option<HitRecord>
    requires
        n <= usize::MAX,
        !ray_t.max.nan(),
        faithful(leaf_hit, r, ray_t, hits),
        scan_outcome(n, r, ray_t, leaf_hit, out),
    ensures
        nearest_below(out, Set::new(|i: usize| i < n), hits, ray_t.max),
{
    lemma_scan_nearest(n, r, ray_t, leaf_hit, hits, out);
}

/// The tests of boxes and of objects are settled by what is tested: each has
/// one outcome only.
pub open spec fn settled<B, L>(box_hit: B, leaf_hit: L) -> bool where
    B: Fn(&AABB, &Ray, &Interval) -> bool,
    L: Fn(usize, &Ray, &Interval) -> Option<HitRecord>,
 {
    &&& forall|b: AABB, r: Ray, iv: Interval|
        !(call_ensures(box_hit, (&b, &r, &iv), true) && call_ensures(box_hit, (&b, &r, &iv), false))
    &&& forall|i: usize, r: Ray, iv: Interval, x: Option<HitRecord>, y: Option<HitRecord>|
        call_ensures(leaf_hit, (i, &r, &iv), x) && call_ensures(leaf_hit, (i, &r, &iv), y) ==> x
            == y
}

impl BvhChild {
    proof fn lemma_determined<B, L>(
        self,
        r: Ray,
        ray_t: Interval,
        box_hit: B,
        leaf_hit: L,
        one: Option<HitRecord>,
        other: Option<HitRecord>,
    ) where B: Fn(&AABB, &Ray, &Interval) -> bool, L: Fn(usize, &Ray, &Interval) -> Option<HitRecord>
        requires
            settled(box_hit, leaf_hit),
            self.hit_outcome(r, ray_t, box_hit, leaf_hit, one),
            self.hit_outcome(r, ray_t, box_hit, leaf_hit, other),
        ensures
            one == other,
        decreases self,
    {
        match self {
            BvhChild::Leaf(_) => {},
            BvhChild::Node(n) => {
                n.lemma_hit_is_determined(r, ray_t, box_hit, leaf_hit, one, other);
            },
        }
    }
}

impl BvhNode {
    /// The traversal is repeatable: where each test of a box and of an
    /// object has one outcome only, so has the traversal of the hierarchy.
    pub proof fn lemma_hit_is_determined<B, L>(
        self,
        r: Ray,
        ray_t: Interval,
        box_hit: B,
        leaf_hit: L,
        one: Option<HitRecord>,
        other: Option<HitRecord>,
    ) where B: Fn(&AABB, &Ray, &Interval) -> bool, L: Fn(usize, &Ray, &Interval) -> Option<HitRecord>
        requires
            settled(box_hit, leaf_hit),
            self.hit_outcome(r, ray_t, box_hit, leaf_hit, one),
            self.hit_outcome(r, ray_t, box_hit, leaf_hit, other),
        ensures
            one == other,
        decreases self,
    {
        if call_ensures(box_hit, (&self.bbox, &r, &ray_t), true) {
            let (a1, b1) = choose|first: Option<HitRecord>, second: Option<HitRecord>|
                {
                    &&& self.left.hit_outcome(r, ray_t, box_hit, leaf_hit, first)
                    &&& self.right.hit_outcome(
                        r,
                        narrowed(ray_t, first),
                        box_hit,
                        leaf_hit,
                        second,
                    )
                    &&& one == #[trigger] later_or(first, second)
                };
            let (a2, b2) = choose|first: Option<HitRecord>, second: Option<HitRecord>|
                {
                    &&& self.left.hit_outcome(r, ray_t, box_hit, leaf_hit, first)
                    &&& self.right.hit_outcome(
                        r,
                        narrowed(ray_t, first),
                        box_hit,
                        leaf_hit,
                        second,
                    )
                    &&& other == #[trigger] later_or(first, second)
                };
            self.left.lemma_determined(r, ray_t, box_hit, leaf_hit, a1, a2);
            self.right.lemma_determined(r, narrowed(ray_t, a1), box_hit, leaf_hit, b1, b2);
        }
    }
}

/// The hierarchy and the list agree. Over the same `n` objects, with a
/// faithful test of single objects, none of which is met at the very end of
/// `ray_t`, and box tests that turn no ray away from an object that it
/// meets, the traversal of the hierarchy built over them and the linear scan
/// report a hit for the same rays and at the same parameter.
pub proof fn lemma_hierarchy_agrees_with_scan<B, L>(
    node: BvhNode,
    n: nat,
    r: Ray,
    ray_t: Interval,
    box_hit: B,
    leaf_hit: L,
    hits: spec_fn(usize) -> Option<HitRecord>,
    from_tree: Option<HitRecord>,
    from_list: Option<HitRecord>,
) where B: Fn(&AABB, &Ray, &Interval) -> bool, L: Fn(usize, &Ray, &Interval) -> Option<HitRecord>
    requires
        1 <= n <= usize::MAX,
        node.covers(Seq::new(n, |i: int| i as usize)),
        !ray_t.max.nan(),
        faithful(leaf_hit, r, ray_t, hits),
        forall|i: usize| (#[trigger] hits(i)) matches Some(rec) ==> rec.t.lt_spec(ray_t.max),
        node.conservative(box_hit, r, ray_t, hits),
        node.hit_outcome(r, ray_t, box_hit, leaf_hit, from_tree),
        scan_outcome(n, r, ray_t, leaf_hit, from_list),
    ensures
        from_tree is Some <==> from_list is Some,
        from_tree is Some ==> from_tree->Some_0.t.key() == from_list->Some_0.t.key(),
{
    let ids = Seq::new(n, |i: int| i as usize);
    let all = Set::new(|i: usize| i < n);
    node.lemma_hit_is_nearest(r, ray_t, box_hit, leaf_hit, hits, from_tree);
    lemma_scan_is_nearest(n, r, ray_t, leaf_hit, hits, from_list);
    assert(node.leaves().to_set() =~= all) by {
        assert forall|i: usize| ids.to_set().contains(i) <==> all.contains(i) by {
            if all.contains(i) {
                assert(ids[i as int] == i);
            }
        }
        if n == 1 {
            assert(node.leaves() =~= seq![0usize, 0usize]);
            assert(node.leaves()[0] == 0);
            assert forall|i: usize| node.leaves().to_set().contains(i) <==> all.contains(i) by {
                if node.leaves().to_set().contains(i) {
                    let k = choose|k: int| 0 <= k < node.leaves().len() && node.leaves()[k] == i;
                }
            }
        }
    }
    if from_tree is Some {
        let i = choose|i: usize| all.contains(i) && #[trigger] hits(i) == from_tree;
        assert(cut(hits(i), ray_t.max) is Some);
    }
    if from_list is Some {
        let i = choose|i: usize| all.contains(i) && #[trigger] hits(i) == from_list;
        assert(cut(hits(i), ray_t.max) is Some);
    }
    if from_tree is Some && from_list is Some {
        let i = choose|i: usize| all.contains(i) && #[trigger] hits(i) == from_tree;
        let j = choose|j: usize| all.contains(j) && #[trigger] hits(j) == from_list;
        assert(from_tree->Some_0.t.le_spec(hits(j)->Some_0.t));
        assert(from_list->Some_0.t.le_spec(hits(i)->Some_0.t));
    }
}

} // verus!
