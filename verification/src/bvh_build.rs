use crate::aabb::AABB;
use crate::bvh::{BvhChild, BvhNode};
use crate::hittable::HitRecord;
use crate::hittable_list::HittableList;
use crate::interval::Interval;
use crate::order::{ascending, before, is_stable_order, lemma_ascending_no_duplicates, stable_order};
use crate::ray::Ray;
use crate::scalar::Scalar;
use vstd::prelude::*;

verus! {

/// `r` is the split that the surface area heuristic chooses among `costs`:
/// the first of the splits whose cost no other undercuts, costs that are not
/// below the largest finite number, or are no number, being out of the
/// running; split 0 where they all are.
pub open spec fn is_best_split(costs: Seq<Scalar>, r: usize) -> bool {
    let cap = Scalar { bits: 0x7f7f_ffff };
    if exists|i: int| 0 <= i < costs.len() && (#[trigger] costs[i]).lt_spec(cap) {
        &&& r < costs.len()
        &&& costs[r as int].lt_spec(cap)
        &&& forall|j: int| 0 <= j < costs.len() ==> !(#[trigger] costs[j]).lt_spec(costs[r as int])
        &&& forall|j: int| 0 <= j < r ==> !(#[trigger] costs[j]).le_spec(costs[r as int])
    } else {
        r == 0
    }
}

/// The split of least cost; see `is_best_split`.
pub fn best_split(costs: &Vec<Scalar>) -> (r: usize)
    ensures
        is_best_split(costs@, r),
        r == 0 || r < costs.len(),
{
    let mut least = Scalar::largest();
    let mut r: usize = 0;
    let mut i: usize = 0;
    let ghost cap = Scalar { bits: 0x7f7f_ffff };
    while i < costs.len()
        invariant
            i <= costs.len(),
            cap == (Scalar { bits: 0x7f7f_ffff }),
            r == 0 || r < i,
            !least.nan(),
            least == cap ==> r == 0 && forall|j: int|
                0 <= j < i ==> !(#[trigger] costs[j]).lt_spec(cap),
            least != cap ==> {
                &&& r < i
                &&& least == costs[r as int]
                &&& least.lt_spec(cap)
                &&& forall|j: int| 0 <= j < i ==> !(#[trigger] costs[j]).lt_spec(least)
                &&& forall|j: int| 0 <= j < r ==> !(#[trigger] costs[j]).le_spec(least)
            },
        decreases costs.len() - i,
    {
        if costs[i].lt(least) {
            least = costs[i];
            r = i;
        }
        i = i + 1;
    }
    r
}

/// The four measurements that building a hierarchy takes on boxes can be
/// taken on every box.
pub open spec fn measurable<U, Z, A, C>(around: U, size: Z, area: A, cost: C) -> bool where
    U: Fn(&AABB, &AABB) -> AABB,
    Z: Fn(&Interval) -> Scalar,
    A: Fn(&AABB) -> Scalar,
    C: Fn(usize, Scalar, usize, Scalar) -> Scalar,
 {
    &&& forall|a: AABB, b: AABB| call_requires(around, (&a, &b))
    &&& forall|iv: Interval| call_requires(size, (&iv,))
    &&& forall|b: AABB| call_requires(area, (&b,))
    &&& forall|i: usize, l: Scalar, k: usize, r: Scalar| call_requires(cost, (i, l, k, r))
}

/// By the lower ends of their boxes on `axis`, in the total order, none of
/// the objects `left` comes after one of the objects `right`.
pub open spec fn split_along(left: Seq<usize>, right: Seq<usize>, boxes: Seq<AABB>, axis: usize) -> bool {
    forall|i: int, j: int|
        0 <= i < left.len() && 0 <= j < right.len() ==> boxes[#[trigger] left[i] as int].axis_interval_spec(
            axis,
        ).min.total_key() <= boxes[#[trigger] right[j] as int].axis_interval_spec(axis).min.total_key()
}

impl BvhChild {
    /// One object, or the hierarchy built over more; see `BvhNode::built`.
    pub open spec fn built<U, Z>(
        self,
        boxes: Seq<AABB>,
        ids: Seq<usize>,
        around: U,
        size: Z,
        rule: spec_fn(Seq<usize>, usize) -> bool,
    ) -> bool where U: Fn(&AABB, &AABB) -> AABB, Z: Fn(&Interval) -> Scalar
        decreases self, 2int,
    {
        match self {
            BvhChild::Leaf(i) => ids == seq![i],
            BvhChild::Node(n) => ids.len() >= 2 && n.built(boxes, ids, around, size, rule),
        }
    }

    pub open spec fn halved(self) -> bool
        decreases self,
    {
        match self {
            BvhChild::Leaf(_) => true,
            BvhChild::Node(n) => n.halved(),
        }
    }

    pub open spec fn partitioned(self, boxes: Seq<AABB>) -> bool
        decreases self,
    {
        match self {
            BvhChild::Leaf(_) => true,
            BvhChild::Node(n) => n.partitioned(boxes),
        }
    }

    /// The box of what hangs here: the object's, or the node's.
    pub open spec fn bounds(self, boxes: Seq<AABB>) -> AABB {
        match self {
            BvhChild::Leaf(i) => boxes[i as int],
            BvhChild::Node(n) => n.bbox,
        }
    }

    /// Every leaf below is an object of `boxes`, and every node's box is
    /// what `around` made of the boxes of its two children.
    pub open spec fn boxed<U: Fn(&AABB, &AABB) -> AABB>(self, boxes: Seq<AABB>, around: U) -> bool
        decreases self,
    {
        match self {
            BvhChild::Leaf(i) => i < boxes.len(),
            BvhChild::Node(n) => n.boxed(boxes, around),
        }
    }
}

impl BvhNode {
    pub open spec fn boxed<U: Fn(&AABB, &AABB) -> AABB>(self, boxes: Seq<AABB>, around: U) -> bool
        decreases self,
    {
        &&& self.left.boxed(boxes, around)
        &&& self.right.boxed(boxes, around)
        &&& call_ensures(
            around,
            (&self.left.bounds(boxes), &self.right.bounds(boxes)),
            self.bbox,
        )
    }

    /// The hierarchy divides space: at every node there is an axis along
    /// which no object on the left starts after one on the right.
    pub open spec fn partitioned(self, boxes: Seq<AABB>) -> bool
        decreases self,
    {
        &&& self.left.partitioned(boxes)
        &&& self.right.partitioned(boxes)
        &&& exists|axis: usize| #[trigger]
            split_along(self.left.leaves(), self.right.leaves(), boxes, axis) && axis < 3
    }

    /// The node is the hierarchy over the objects `ids`: over one object, the
    /// node whose two children are both that object; over more, a tree that
    /// has each of them as a leaf once.
    pub open spec fn covers(self, ids: Seq<usize>) -> bool {
        if ids.len() == 1 {
            self.left == BvhChild::Leaf(ids[0]) && self.right == BvhChild::Leaf(ids[0])
        } else {
            self.leaves().no_duplicates() && self.leaves().to_set() == ids.to_set()
        }
    }

    /// The node is the hierarchy that is built over the objects `ids` by the
    /// rule given: the objects are sorted stably along the longest axis of
    /// the box around them all; one object hangs on both sides of the node
    /// and two hang one on either side; more are split by `rule` after the
    /// object `split` of the sorted objects, and each side is one object or
    /// the hierarchy built over its objects in the same way. The box of the
    /// node is what `around` makes of the boxes of its two sides.
    pub open spec fn built<U, Z>(
        self,
        boxes: Seq<AABB>,
        ids: Seq<usize>,
        around: U,
        size: Z,
        rule: spec_fn(Seq<usize>, usize) -> bool,
    ) -> bool where U: Fn(&AABB, &AABB) -> AABB, Z: Fn(&Interval) -> Scalar
        decreases self, 1int,
    {
        exists|axis: usize, sorted: Seq<usize>|
            #![trigger is_sorted_stably(boxes, ids, axis, sorted)]
            {
                &&& is_axis(boxes, ids, around, size, axis)
                &&& is_sorted_stably(boxes, ids, axis, sorted)
                &&& self.split_of(boxes, sorted, around, size, rule)
            }
    }

    /// The node is the hierarchy built over objects that are sorted already.
    pub open spec fn split_of<U, Z>(
        self,
        boxes: Seq<AABB>,
        sorted: Seq<usize>,
        around: U,
        size: Z,
        rule: spec_fn(Seq<usize>, usize) -> bool,
    ) -> bool where U: Fn(&AABB, &AABB) -> AABB, Z: Fn(&Interval) -> Scalar
        decreases self, 0int,
    {
        &&& sorted.len() >= 1
        &&& call_ensures(
            around,
            (&self.left.bounds(boxes), &self.right.bounds(boxes)),
            self.bbox,
        )
        &&& if sorted.len() <= 2 {
            self.left == BvhChild::Leaf(sorted[0]) && self.right == BvhChild::Leaf(sorted.last())
        } else {
            exists|split: usize| #[trigger]
                rule(sorted, split) && split + 1 < sorted.len() && self.left.built(
                    boxes,
                    sorted.subrange(0, split + 1),
                    around,
                    size,
                    rule,
                ) && self.right.built(
                    boxes,
                    sorted.subrange(split + 1, sorted.len() as int),
                    around,
                    size,
                    rule,
                )
        }
    }

    /// At every node the two sides hold the same number of objects, or the
    /// right side one more.
    pub open spec fn halved(self) -> bool
        decreases self,
    {
        &&& self.left.halved()
        &&& self.right.halved()
        &&& self.left.leaves().len() == self.leaves().len() / 2
    }

    /// The hierarchy over all the objects of `list`, which the leaves name
    /// by their positions in it. The list must hold an object.
    ///
    /// The objects are sorted along the longest axis of the box around them
    /// all and split where the surface area heuristic costs least: the cost
    /// of leaving the first `i + 1` objects to the left is
    /// `cost(i, a, k, b)`, with `a` the area of the box around those, `k` the
    /// number of the others and `b` the area of the box around the others.
    /// Each side with more than one object becomes a node in the same way. Arithmetic on boxes is the caller's: `around` gives the box
    /// around two boxes, `size` the length of an interval, `area` the
    /// measure of a box that the costs weigh.
    pub fn from_list<U, Z, A, C>(
        list: &HittableList,
        around: &U,
        size: &Z,
        area: &A,
        cost: &C,
    ) -> (node: BvhNode) where
        U: Fn(&AABB, &AABB) -> AABB,
        Z: Fn(&Interval) -> Scalar,
        A: Fn(&AABB) -> Scalar,
        C: Fn(usize, Scalar, usize, Scalar) -> Scalar,

        requires
            list@.len() >= 1,
            measurable(*around, *size, *area, *cost),
        ensures
            node.built(
                list@,
                Seq::new(list@.len(), |i: int| i as usize),
                *around,
                *size,
                sah_rule(list@, *around, *area, *cost),
            ),
            node.boxed(list@, *around),
            node.covers(Seq::new(list@.len(), |i: int| i as usize)),
            node.partitioned(list@),
    {
        let ids = all_of(list);
        Self::new_optimized(list.objects(), ids, around, size, area, cost)
    }

    /// The hierarchy over all the objects of `list` that splits the sorted
    /// objects in the middle: a simpler rule than that of `from_list`, which
    /// takes no measure of the boxes.
    pub fn from_list_median<U, Z>(list: &HittableList, around: &U, size: &Z) -> (node: BvhNode) where
        U: Fn(&AABB, &AABB) -> AABB,
        Z: Fn(&Interval) -> Scalar,

        requires
            list@.len() >= 1,
            forall|a: AABB, b: AABB| call_requires(*around, (&a, &b)),
            forall|iv: Interval| call_requires(*size, (&iv,)),
        ensures
            node.built(
                list@,
                Seq::new(list@.len(), |i: int| i as usize),
                *around,
                *size,
                median_rule(),
            ),
            node.boxed(list@, *around),
            node.covers(Seq::new(list@.len(), |i: int| i as usize)),
            node.partitioned(list@),
            node.halved(),
    {
        let ids = all_of(list);
        Self::new_median(list.objects(), ids, around, size)
    }

    /// The objects `ids` sorted along the longest axis of the box around
    /// them all.
    fn arrange<U, Z>(boxes: &Vec<AABB>, ids: &Vec<usize>, around: &U, size: &Z) -> (r: (
        Vec<usize>,
        usize,
    )) where U: Fn(&AABB, &AABB) -> AABB, Z: Fn(&Interval) -> Scalar
        requires
            forall|i: int| 0 <= i < ids.len() ==> (#[trigger] ids[i]) < boxes.len(),
            ids@.no_duplicates(),
            forall|a: AABB, b: AABB| call_requires(*around, (&a, &b)),
            forall|iv: Interval| call_requires(*size, (&iv,)),
        ensures
            r.1 < 3,
            is_axis(boxes@, ids@, *around, *size, r.1),
            is_sorted_stably(boxes@, ids@, r.1, r.0@),
            sorted_along(boxes@, ids@, r.1, r.0@),
    {
        let n = ids.len();
        let mut all = AABB::empty();
        let ghost mut acc = seq![all];
        let mut i: usize = 0;
        while i < n
            invariant
                i <= n,
                n == ids.len(),
                acc.len() == i + 1,
                acc[0] == AABB::empty_spec(),
                all == acc[i as int],
                forall|k: int|
                    1 <= k < acc.len() ==> call_ensures(
                        *around,
                        (&acc[k - 1], &row(boxes@, ids@)[k - 1]),
                        #[trigger] acc[k],
                    ),
                forall|k: int| 0 <= k < ids.len() ==> (#[trigger] ids[k]) < boxes.len(),
                forall|a: AABB, b: AABB| call_requires(*around, (&a, &b)),
            decreases n - i,
        {
            all = around(&all, &boxes[ids[i]]);
            proof {
                acc = acc.push(all);
            }
            i = i + 1;
        }
        let x = size(&all.x);
        let y = size(&all.y);
        let z = size(&all.z);
        let axis = AABB::longest_axis(x, y, z);
        proof {
            assert(is_folded(row(boxes@, ids@), *around, acc));
            assert(is_measured(*size, acc.last(), x, y, z));
            assert(axis == AABB::longest_axis_spec(x, y, z));
        }
        (sort_along(boxes, ids, axis), axis)
    }

    /// The node over one or two sorted objects.
    fn twig<U, Z>(
        boxes: &Vec<AABB>,
        sorted: &Vec<usize>,
        around: &U,
        size: &Z,
        Ghost(axis): Ghost<usize>,
        Ghost(rule): Ghost<spec_fn(Seq<usize>, usize) -> bool>,
    ) -> (node: BvhNode) where U: Fn(&AABB, &AABB) -> AABB, Z: Fn(&Interval) -> Scalar
        requires
            1 <= sorted.len() <= 2,
            axis < 3,
            sorted_along(boxes@, sorted@, axis, sorted@),
            forall|a: AABB, b: AABB| call_requires(*around, (&a, &b)),
        ensures
            node.split_of(boxes@, sorted@, *around, *size, rule),
            node.boxed(boxes@, *around),
            node.covers(sorted@),
            node.partitioned(boxes@),
            node.halved(),
            node.leaves().len() == 2,
    {
        let first = sorted[0];
        let second = if sorted.len() == 1 {
            first
        } else {
            sorted[1]
        };
        let bbox = around(&boxes[first], &boxes[second]);
        let node = BvhNode { left: BvhChild::Leaf(first), right: BvhChild::Leaf(second), bbox };
        proof {
            assert(node.leaves() =~= seq![first, second]);
            if sorted.len() == 2 {
                assert(node.leaves() =~= sorted@);
            }
            assert(split_along(node.left.leaves(), node.right.leaves(), boxes@, axis));
        }
        node
    }

    /// The split that the surface area heuristic chooses for the sorted
    /// objects, three or more: the last position of the left side. It is
    /// the split of least cost, by `best_split`, among the costs that
    /// `cost` finds for the areas that `area` finds of the boxes that
    /// `around` grows from either end; see `are_costs`.
    pub fn sah_split<U, A, C>(boxes: &Vec<AABB>, sorted: &Vec<usize>, around: &U, area: &A, cost: &C) -> (split:
        usize) where
        U: Fn(&AABB, &AABB) -> AABB,
        A: Fn(&AABB) -> Scalar,
        C: Fn(usize, Scalar, usize, Scalar) -> Scalar,

        requires
            sorted.len() >= 3,
            forall|k: int| 0 <= k < sorted.len() ==> (#[trigger] sorted[k]) < boxes.len(),
            forall|a: AABB, b: AABB| call_requires(*around, (&a, &b)),
            forall|b: AABB| call_requires(*area, (&b,)),
            forall|i: usize, l: Scalar, k: usize, r: Scalar| call_requires(*cost, (i, l, k, r)),
        ensures
            split + 1 < sorted.len(),
            exists|costs: Seq<Scalar>| #[trigger]
                is_best_split(costs, split) && are_costs(
                    boxes@,
                    sorted@,
                    *around,
                    *area,
                    *cost,
                    costs,
                ),
    {
        let n = sorted.len();
        let ghost ordered = Seq::new(n as nat, |i: int| boxes[sorted[i] as int]);
        let mut left_area: Vec<Scalar> = Vec::new();
        let mut grown = boxes[sorted[0]];
        let ghost mut from_left = seq![grown];
        left_area.push(area(&grown));
        let mut i: usize = 1;
        while i < n
            invariant
                1 <= i <= n,
                n == sorted.len(),
                ordered == Seq::new(n as nat, |i: int| boxes[sorted[i] as int]),
                left_area.len() == i,
                from_left.len() == i,
                grown == from_left[i - 1],
                is_grown(ordered, *around, from_left),
                are_areas(from_left, *area, left_area@),
                forall|k: int| 0 <= k < sorted.len() ==> (#[trigger] sorted[k]) < boxes.len(),
                forall|a: AABB, b: AABB| call_requires(*around, (&a, &b)),
                forall|b: AABB| call_requires(*area, (&b,)),
            decreases n - i,
        {
            grown = around(&grown, &boxes[sorted[i]]);
            proof {
                from_left = from_left.push(grown);
            }
            left_area.push(area(&grown));
            i = i + 1;
        }
        let ghost reversed = ordered.reverse();
        let mut right_area: Vec<Scalar> = Vec::new();
        let mut grown = boxes[sorted[n - 1]];
        let ghost mut from_right = seq![grown];
        right_area.push(area(&grown));
        let mut i: usize = 1;
        while i < n - 1
            invariant
                1 <= i <= n - 1,
                n == sorted.len(),
                ordered == Seq::new(n as nat, |i: int| boxes[sorted[i] as int]),
                reversed == ordered.reverse(),
                right_area.len() == i,
                from_right.len() == i,
                grown == from_right[i - 1],
                is_grown(reversed, *around, from_right),
                are_areas(from_right, *area, right_area@),
                forall|k: int| 0 <= k < sorted.len() ==> (#[trigger] sorted[k]) < boxes.len(),
                forall|a: AABB, b: AABB| call_requires(*around, (&a, &b)),
                forall|b: AABB| call_requires(*area, (&b,)),
            decreases n - i,
        {
            grown = around(&grown, &boxes[sorted[n - 1 - i]]);
            proof {
                assert(reversed[i as int] == boxes[sorted[n - 1 - i] as int]);
                from_right = from_right.push(grown);
            }
            right_area.push(area(&grown));
            i = i + 1;
        }
        let mut costs: Vec<Scalar> = Vec::new();
        let mut i: usize = 0;
        while i < n - 1
            invariant
                i <= n - 1,
                n >= 3,
                costs.len() == i,
                left_area.len() == n,
                right_area.len() == n - 1,
                forall|k: int|
                    0 <= k < i ==> call_ensures(
                        *cost,
                        (k as usize, left_area[k], (n - 1 - k) as usize, right_area[n - 2 - k]),
                        #[trigger] costs[k],
                    ),
                forall|i: usize, l: Scalar, k: usize, r: Scalar| call_requires(*cost, (i, l, k, r)),
            decreases n - i,
        {
            costs.push(cost(i, left_area[i], n - 1 - i, right_area[n - 2 - i]));
            i = i + 1;
        }
        let split = best_split(&costs);
        proof {
            assert(weighed(left_area@, right_area@, *cost, costs@));
            assert(is_grown(ordered, *around, from_left) && are_areas(from_left, *area, left_area@)
                && is_grown(ordered.reverse(), *around, from_right) && are_areas(
                from_right,
                *area,
                right_area@,
            ) && weighed(left_area@, right_area@, *cost, costs@));
            assert(are_costs(boxes@, sorted@, *around, *area, *cost, costs@));
        }
        split
    }

    fn new_optimized<U, Z, A, C>(
        boxes: &Vec<AABB>,
        ids: Vec<usize>,
        around: &U,
        size: &Z,
        area: &A,
        cost: &C,
    ) -> (node: BvhNode) where
        U: Fn(&AABB, &AABB) -> AABB,
        Z: Fn(&Interval) -> Scalar,
        A: Fn(&AABB) -> Scalar,
        C: Fn(usize, Scalar, usize, Scalar) -> Scalar,

        requires
            ids.len() >= 1,
            forall|i: int| 0 <= i < ids.len() ==> (#[trigger] ids[i]) < boxes.len(),
            ids@.no_duplicates(),
            measurable(*around, *size, *area, *cost),
        ensures
            node.built(boxes@, ids@, *around, *size, sah_rule(boxes@, *around, *area, *cost)),
            node.boxed(boxes@, *around),
            node.covers(ids@),
            node.partitioned(boxes@),
        decreases ids.len(), 1int,
    {
        let ghost rule = sah_rule(boxes@, *around, *area, *cost);
        let n = ids.len();
        let (sorted, axis) = Self::arrange(boxes, &ids, around, size);
        if n <= 2 {
            proof {
                lemma_sorted_itself(boxes@, ids@, axis, sorted@);
            }
            let node = Self::twig(boxes, &sorted, around, size, Ghost(axis), Ghost(rule));
            proof {
                lemma_same_objects(ids@, sorted@);
            }
            return node;
        }
        let split = Self::sah_split(boxes, &sorted, around, area, cost);
        assert(rule(sorted@, split));
        let first = part(&sorted, 0, split + 1);
        let second = part(&sorted, split + 1, n);
        proof {
            lemma_parts(sorted@, split as int + 1);
        }
        let left = Self::child(boxes, first, around, size, area, cost);
        let right = Self::child(boxes, second, around, size, area, cost);
        let bbox = around(&left.bounds_of(boxes), &right.bounds_of(boxes));
        let node = BvhNode { left, right, bbox };
        proof {
            lemma_joined(boxes@, ids@, sorted@, axis, split as int + 1, left, right);
            assert(node.split_of(boxes@, sorted@, *around, *size, rule));
        }
        node
    }

    fn child<U, Z, A, C>(
        boxes: &Vec<AABB>,
        ids: Vec<usize>,
        around: &U,
        size: &Z,
        area: &A,
        cost: &C,
    ) -> (c: BvhChild) where
        U: Fn(&AABB, &AABB) -> AABB,
        Z: Fn(&Interval) -> Scalar,
        A: Fn(&AABB) -> Scalar,
        C: Fn(usize, Scalar, usize, Scalar) -> Scalar,

        requires
            ids.len() >= 1,
            forall|i: int| 0 <= i < ids.len() ==> (#[trigger] ids[i]) < boxes.len(),
            ids@.no_duplicates(),
            measurable(*around, *size, *area, *cost),
        ensures
            c.built(boxes@, ids@, *around, *size, sah_rule(boxes@, *around, *area, *cost)),
            c.boxed(boxes@, *around),
            c.partitioned(boxes@),
            c.leaves().no_duplicates(),
            c.leaves().to_set() == ids@.to_set(),
        decreases ids.len(), 2int,
    {
        if ids.len() == 1 {
            let c = BvhChild::Leaf(ids[0]);
            assert(c.leaves() =~= ids@);
            c
        } else {
            BvhChild::Node(Box::new(Self::new_optimized(boxes, ids, around, size, area, cost)))
        }
    }

    fn new_median<U, Z>(boxes: &Vec<AABB>, ids: Vec<usize>, around: &U, size: &Z) -> (node: BvhNode) where
        U: Fn(&AABB, &AABB) -> AABB,
        Z: Fn(&Interval) -> Scalar,

        requires
            ids.len() >= 1,
            forall|i: int| 0 <= i < ids.len() ==> (#[trigger] ids[i]) < boxes.len(),
            ids@.no_duplicates(),
            forall|a: AABB, b: AABB| call_requires(*around, (&a, &b)),
            forall|iv: Interval| call_requires(*size, (&iv,)),
        ensures
            node.built(boxes@, ids@, *around, *size, median_rule()),
            node.boxed(boxes@, *around),
            node.covers(ids@),
            node.partitioned(boxes@),
            node.halved(),
            ids.len() >= 2 ==> node.leaves().len() == ids.len(),
        decreases ids.len(), 1int,
    {
        let ghost rule = median_rule();
        let n = ids.len();
        let (sorted, axis) = Self::arrange(boxes, &ids, around, size);
        if n <= 2 {
            proof {
                lemma_sorted_itself(boxes@, ids@, axis, sorted@);
            }
            let node = Self::twig(boxes, &sorted, around, size, Ghost(axis), Ghost(rule));
            proof {
                lemma_same_objects(ids@, sorted@);
            }
            return node;
        }
        let mid = n / 2;
        assert(rule(sorted@, (mid - 1) as usize));
        let first = part(&sorted, 0, mid);
        let second = part(&sorted, mid, n);
        proof {
            lemma_parts(sorted@, mid as int);
        }
        let left = Self::child_median(boxes, first, around, size);
        let right = Self::child_median(boxes, second, around, size);
        let bbox = around(&left.bounds_of(boxes), &right.bounds_of(boxes));
        let node = BvhNode { left, right, bbox };
        proof {
            lemma_joined(boxes@, ids@, sorted@, axis, mid as int, left, right);
            assert(node.split_of(boxes@, sorted@, *around, *size, rule));
        }
        node
    }

    fn child_median<U, Z>(boxes: &Vec<AABB>, ids: Vec<usize>, around: &U, size: &Z) -> (c: BvhChild) where
        U: Fn(&AABB, &AABB) -> AABB,
        Z: Fn(&Interval) -> Scalar,

        requires
            ids.len() >= 1,
            forall|i: int| 0 <= i < ids.len() ==> (#[trigger] ids[i]) < boxes.len(),
            ids@.no_duplicates(),
            forall|a: AABB, b: AABB| call_requires(*around, (&a, &b)),
            forall|iv: Interval| call_requires(*size, (&iv,)),
        ensures
            c.built(boxes@, ids@, *around, *size, median_rule()),
            c.boxed(boxes@, *around),
            c.partitioned(boxes@),
            c.halved(),
            c.leaves().no_duplicates(),
            c.leaves().to_set() == ids@.to_set(),
            c.leaves().len() == ids.len(),
        decreases ids.len(), 2int,
    {
        if ids.len() == 1 {
            let c = BvhChild::Leaf(ids[0]);
            assert(c.leaves() =~= ids@);
            assert(ids@ =~= seq![ids[0]]);
            c
        } else {
            BvhChild::Node(Box::new(Self::new_median(boxes, ids, around, size)))
        }
    }
}

/// The boxes of the objects `ids`, in their order.
pub open spec fn row(boxes: Seq<AABB>, ids: Seq<usize>) -> Seq<AABB> {
    Seq::new(ids.len(), |i: int| boxes[ids[i] as int])
}

/// `acc` holds what `around` makes of a row of boxes, box after box, starting
/// from the empty box.
pub open spec fn is_folded<U: Fn(&AABB, &AABB) -> AABB>(row: Seq<AABB>, around: U, acc: Seq<AABB>) -> bool {
    &&& acc.len() == row.len() + 1
    &&& acc[0] == AABB::empty_spec()
    &&& forall|i: int|
        1 <= i < acc.len() ==> call_ensures(around, (&acc[i - 1], &row[i - 1]), #[trigger] acc[i])
}

/// `x`, `y` and `z` are what `size` finds for the three intervals of `b`.
pub open spec fn is_measured<Z: Fn(&Interval) -> Scalar>(
    size: Z,
    b: AABB,
    x: Scalar,
    y: Scalar,
    z: Scalar,
) -> bool {
    &&& call_ensures(size, (&b.x,), x)
    &&& call_ensures(size, (&b.y,), y)
    &&& call_ensures(size, (&b.z,), z)
}

/// `axis` is the axis along which the objects `ids` are sorted: the longest,
/// by what `size` finds, of the box that `around` makes of them all.
pub open spec fn is_axis<U, Z>(boxes: Seq<AABB>, ids: Seq<usize>, around: U, size: Z, axis: usize) -> bool where
    U: Fn(&AABB, &AABB) -> AABB,
    Z: Fn(&Interval) -> Scalar,
 {
    exists|acc: Seq<AABB>, x: Scalar, y: Scalar, z: Scalar|
        #![trigger is_folded(row(boxes, ids), around, acc), AABB::longest_axis_spec(x, y, z)]
        {
            &&& is_folded(row(boxes, ids), around, acc)
            &&& is_measured(size, acc.last(), x, y, z)
            &&& axis == AABB::longest_axis_spec(x, y, z)
        }
}

/// The keys by which the objects `ids` are sorted along `axis`: the lower
/// ends of their boxes.
pub open spec fn keys_along(boxes: Seq<AABB>, ids: Seq<usize>, axis: usize) -> Seq<Scalar> {
    Seq::new(ids.len(), |i: int| boxes[ids[i] as int].axis_interval_spec(axis).min)
}

/// `sorted` is the objects `ids` sorted stably along `axis`.
pub open spec fn is_sorted_stably(boxes: Seq<AABB>, ids: Seq<usize>, axis: usize, sorted: Seq<usize>) -> bool {
    exists|order: Seq<usize>| #[trigger]
        is_stable_order(keys_along(boxes, ids, axis), 0, ids.len() as usize, order) && sorted
            == Seq::new(ids.len(), |i: int| ids[order[i] as int])
}

/// The rule of the surface area heuristic: the sorted objects are split
/// where `best_split` finds the least of their costs.
pub open spec fn sah_rule<U, A, C>(boxes: Seq<AABB>, around: U, area: A, cost: C) -> spec_fn(
    Seq<usize>,
    usize,
) -> bool where
    U: Fn(&AABB, &AABB) -> AABB,
    A: Fn(&AABB) -> Scalar,
    C: Fn(usize, Scalar, usize, Scalar) -> Scalar,
 {
    |sorted: Seq<usize>, split: usize|
        exists|costs: Seq<Scalar>| #[trigger]
            is_best_split(costs, split) && are_costs(boxes, sorted, around, area, cost, costs)
}

/// The rule of the median: the sorted objects are split in the middle, the
/// right side taking the odd one.
pub open spec fn median_rule() -> spec_fn(Seq<usize>, usize) -> bool {
    |sorted: Seq<usize>, split: usize| split + 1 == sorted.len() / 2
}

/// `grown` holds, for a row of boxes, the boxes that `around` grows along it:
/// the first box of the row, then for each box `i` of the row that it
/// reaches what `around` makes of the last grown box and box `i`.
pub open spec fn is_grown<U: Fn(&AABB, &AABB) -> AABB>(row: Seq<AABB>, around: U, grown: Seq<AABB>) -> bool {
    &&& 1 <= grown.len() <= row.len()
    &&& grown[0] == row[0]
    &&& forall|i: int|
        1 <= i < grown.len() ==> call_ensures(around, (&grown[i - 1], &row[i]), #[trigger] grown[i])
}

/// `areas` holds what `area` finds for each of `grown`.
pub open spec fn are_areas<A: Fn(&AABB) -> Scalar>(grown: Seq<AABB>, area: A, areas: Seq<Scalar>) -> bool {
    &&& areas.len() == grown.len()
    &&& forall|i: int| 0 <= i < grown.len() ==> call_ensures(area, (&grown[i],), #[trigger] areas[i])
}

/// `costs` holds what `cost` finds for each split of `n` sorted objects:
/// for the split after object `i`, from the area of the box around the first
/// `i + 1` objects and the area of the box around the `n - 1 - i` others.
pub open spec fn weighed<C: Fn(usize, Scalar, usize, Scalar) -> Scalar>(
    left: Seq<Scalar>,
    right: Seq<Scalar>,
    cost: C,
    costs: Seq<Scalar>,
) -> bool {
    &&& right.len() + 1 == left.len()
    &&& costs.len() == right.len()
    &&& forall|i: int|
        0 <= i < costs.len() ==> call_ensures(
            cost,
            (i as usize, left[i], (left.len() - 1 - i) as usize, right[right.len() - 1 - i]),
            #[trigger] costs[i],
        )
}

/// `costs` are costs of the splits of the sorted objects, as the three
/// measurements may find them: with `around` growing a box from the first
/// object to the last, and another from the last object to the second;
/// `area` finding the area of each box grown; and `cost` weighing, for each
/// split, the areas of the boxes on its two sides.
pub open spec fn are_costs<U, A, C>(
    boxes: Seq<AABB>,
    sorted: Seq<usize>,
    around: U,
    area: A,
    cost: C,
    costs: Seq<Scalar>,
) -> bool where
    U: Fn(&AABB, &AABB) -> AABB,
    A: Fn(&AABB) -> Scalar,
    C: Fn(usize, Scalar, usize, Scalar) -> Scalar,
 {
    let row = Seq::new(sorted.len(), |i: int| boxes[sorted[i] as int]);
    exists|from_left: Seq<AABB>, left: Seq<Scalar>, from_right: Seq<AABB>, right: Seq<Scalar>|
        #![trigger are_areas(from_left, area, left), are_areas(from_right, area, right)]
        {
            &&& from_left.len() == row.len()
            &&& from_right.len() + 1 == row.len()
            &&& is_grown(row, around, from_left)
            &&& are_areas(from_left, area, left)
            &&& is_grown(row.reverse(), around, from_right)
            &&& are_areas(from_right, area, right)
            &&& weighed(left, right, cost, costs)
        }
}

impl BvhChild {
    proof fn lemma_callable<U, B, L>(self, boxes: Seq<AABB>, around: U, r: Ray, box_hit: B, leaf_hit: L) where
        U: Fn(&AABB, &AABB) -> AABB,
        B: Fn(&AABB, &Ray, &Interval) -> bool,
        L: Fn(usize, &Ray, &Interval) -> Option<HitRecord>,

        requires
            self.boxed(boxes, around),
            forall|b: AABB, iv: Interval| call_requires(box_hit, (&b, &r, &iv)),
            forall|i: usize, iv: Interval| i < boxes.len() ==> call_requires(leaf_hit, (i, &r, &iv)),
        ensures
            self.callable(r, box_hit, leaf_hit),
        decreases self,
    {
        match self {
            BvhChild::Leaf(_) => {},
            BvhChild::Node(n) => {
                n.lemma_callable(boxes, around, r, box_hit, leaf_hit);
            },
        }
    }
}

impl BvhNode {
    /// A hierarchy over the objects of a list can be traversed with a test
    /// of boxes that takes every box and a test of objects that takes every
    /// object of the list.
    pub proof fn lemma_callable<U, B, L>(self, boxes: Seq<AABB>, around: U, r: Ray, box_hit: B, leaf_hit: L) where
        U: Fn(&AABB, &AABB) -> AABB,
        B: Fn(&AABB, &Ray, &Interval) -> bool,
        L: Fn(usize, &Ray, &Interval) -> Option<HitRecord>,

        requires
            self.boxed(boxes, around),
            forall|b: AABB, iv: Interval| call_requires(box_hit, (&b, &r, &iv)),
            forall|i: usize, iv: Interval| i < boxes.len() ==> call_requires(leaf_hit, (i, &r, &iv)),
        ensures
            self.callable(r, box_hit, leaf_hit),
        decreases self,
    {
        self.left.lemma_callable(boxes, around, r, box_hit, leaf_hit);
        self.right.lemma_callable(boxes, around, r, box_hit, leaf_hit);
    }
}

/// The positions of all objects of a list, in order.
fn all_of(list: &HittableList) -> (ids: Vec<usize>)
    ensures
        ids@ == Seq::new(list@.len(), |i: int| i as usize),
        forall|i: int| 0 <= i < ids.len() ==> (#[trigger] ids[i]) < list@.len(),
        ids@.no_duplicates(),
{
    let n = list.objects().len();
    let mut ids: Vec<usize> = Vec::new();
    let mut i: usize = 0;
    while i < n
        invariant
            i <= n,
            n == list@.len(),
            ids@ == Seq::new(i as nat, |k: int| k as usize),
        decreases n - i,
    {
        ids.push(i);
        i = i + 1;
        assert(ids@ =~= Seq::new(i as nat, |k: int| k as usize));
    }
    ids
}

/// `sorted` is the objects `ids`, each once, in the order of the lower ends
/// of their boxes on `axis`.
pub open spec fn sorted_along(boxes: Seq<AABB>, ids: Seq<usize>, axis: usize, sorted: Seq<usize>) -> bool {
    &&& sorted.len() == ids.len()
    &&& sorted.no_duplicates()
    &&& sorted.to_set() == ids.to_set()
    &&& forall|i: int| 0 <= i < sorted.len() ==> (#[trigger] sorted[i]) < boxes.len()
    &&& forall|i: int, j: int|
        0 <= i < j < sorted.len() ==> boxes[#[trigger] sorted[i] as int].axis_interval_spec(
            axis,
        ).min.total_key() <= boxes[#[trigger] sorted[j] as int].axis_interval_spec(axis).min.total_key()
}

proof fn lemma_sorted_itself(boxes: Seq<AABB>, ids: Seq<usize>, axis: usize, sorted: Seq<usize>)
    requires
        sorted_along(boxes, ids, axis, sorted),
    ensures
        sorted_along(boxes, sorted, axis, sorted),
{
}

/// A node that covers the sorted objects covers the objects.
proof fn lemma_same_objects(ids: Seq<usize>, sorted: Seq<usize>)
    requires
        sorted.len() == ids.len(),
        sorted.to_set() == ids.to_set(),
        ids.len() >= 1,
    ensures
        ids.len() == 1 ==> sorted[0] == ids[0],
{
    if ids.len() == 1 {
        assert(sorted.to_set().contains(sorted[0]));
        assert(ids.to_set().contains(sorted[0]));
    }
}

/// Two children over the two parts of the sorted objects make a node that
/// has each object as a leaf once and divides them along the axis.
proof fn lemma_joined(
    boxes: Seq<AABB>,
    ids: Seq<usize>,
    sorted: Seq<usize>,
    axis: usize,
    at: int,
    left: BvhChild,
    right: BvhChild,
)
    requires
        ids.len() >= 2,
        axis < 3,
        sorted_along(boxes, ids, axis, sorted),
        0 < at < sorted.len(),
        left.leaves().no_duplicates(),
        right.leaves().no_duplicates(),
        left.leaves().to_set() == sorted.subrange(0, at).to_set(),
        right.leaves().to_set() == sorted.subrange(at, sorted.len() as int).to_set(),
    ensures
        (left.leaves() + right.leaves()).no_duplicates(),
        (left.leaves() + right.leaves()).to_set() == ids.to_set(),
        split_along(left.leaves(), right.leaves(), boxes, axis),
{
    let first = sorted.subrange(0, at);
    let second = sorted.subrange(at, sorted.len() as int);
    lemma_parts(sorted, at);
    assert forall|i: int, j: int|
        0 <= i < left.leaves().len() && 0 <= j < right.leaves().len() implies left.leaves()[i]
        != right.leaves()[j] && boxes[#[trigger] left.leaves()[i] as int].axis_interval_spec(
        axis,
    ).min.total_key() <= boxes[#[trigger] right.leaves()[j] as int].axis_interval_spec(
        axis,
    ).min.total_key() by {
        assert(left.leaves().to_set().contains(left.leaves()[i]));
        assert(right.leaves().to_set().contains(right.leaves()[j]));
        let a = choose|a: int| 0 <= a < first.len() && first[a] == left.leaves()[i];
        let b = choose|b: int| 0 <= b < second.len() && second[b] == right.leaves()[j];
        assert(sorted[a] == first[a]);
        assert(sorted[at + b] == second[b]);
    }
    vstd::seq_lib::lemma_no_dup_in_concat(left.leaves(), right.leaves());
    vstd::seq_lib::seq_to_set_distributes_over_add(left.leaves(), right.leaves());
    assert((left.leaves() + right.leaves()).to_set() =~= ids.to_set());
}

impl BvhChild {
    fn bounds_of(&self, boxes: &Vec<AABB>) -> (b: AABB)
        requires
            self matches BvhChild::Leaf(i) ==> i < boxes.len(),
        ensures
            b == self.bounds(boxes@),
    {
        match self {
            BvhChild::Leaf(i) => boxes[*i],
            BvhChild::Node(n) => n.bbox,
        }
    }
}

/// The objects `ids` in the order of the lower ends of their boxes on `axis`,
/// objects whose boxes start at one coordinate staying in the order they had.
fn sort_along(boxes: &Vec<AABB>, ids: &Vec<usize>, axis: usize) -> (sorted: Vec<usize>)
    requires
        axis < 3,
        forall|i: int| 0 <= i < ids.len() ==> (#[trigger] ids[i]) < boxes.len(),
        ids@.no_duplicates(),
    ensures
        sorted_along(boxes@, ids@, axis, sorted@),
        is_sorted_stably(boxes@, ids@, axis, sorted@),
{
    let mut keys: Vec<Scalar> = Vec::new();
    let mut i: usize = 0;
    while i < ids.len()
        invariant
            i <= ids.len(),
            axis < 3,
            keys.len() == i,
            forall|k: int| 0 <= k < ids.len() ==> (#[trigger] ids[k]) < boxes.len(),
            forall|k: int|
                0 <= k < i ==> (#[trigger] keys[k]) == boxes[ids[k] as int].axis_interval_spec(axis).min,
        decreases ids.len() - i,
    {
        keys.push(boxes[ids[i]].axis_interval(axis).min);
        i = i + 1;
    }
    let order = stable_order(&keys);
    proof {
        lemma_ascending_no_duplicates(keys@, order@);
    }
    let mut sorted: Vec<usize> = Vec::new();
    let mut i: usize = 0;
    while i < order.len()
        invariant
            i <= order.len(),
            order.len() == ids.len(),
            keys.len() == ids.len(),
            ascending(keys@, order@),
            sorted.len() == i,
            forall|k: int| 0 <= k < i ==> (#[trigger] sorted[k]) == ids[order[k] as int],
        decreases order.len() - i,
    {
        sorted.push(ids[order[i]]);
        i = i + 1;
    }
    proof {
        assert forall|a: int, b: int|
            0 <= a < sorted.len() && 0 <= b < sorted.len() && a != b implies sorted[a] != sorted[b] by {
            assert(order[a] != order[b]);
        }
        assert forall|id: usize| sorted@.to_set().contains(id) <==> ids@.to_set().contains(id) by {
            if sorted@.to_set().contains(id) {
                let k = choose|k: int| 0 <= k < sorted.len() && sorted[k] == id;
                assert(ids[order[k] as int] == id);
            }
            if ids@.to_set().contains(id) {
                let p = choose|p: int| 0 <= p < ids.len() && ids[p] == id;
                assert(order@.to_set().contains(p as usize));
                let k = choose|k: int| 0 <= k < order.len() && order[k] == p as usize;
                assert(sorted[k] == id);
            }
        }
        assert(sorted@.to_set() =~= ids@.to_set());
        assert forall|i: int, j: int| 0 <= i < j < sorted.len() implies boxes[#[trigger] sorted[i] as int].axis_interval_spec(
            axis,
        ).min.total_key() <= boxes[#[trigger] sorted[j] as int].axis_interval_spec(
            axis,
        ).min.total_key() by {
            assert(before(keys@, order[i], order[j]));
        }
        assert(keys@ =~= keys_along(boxes@, ids@, axis));
        assert(sorted@ =~= Seq::new(ids@.len(), |i: int| ids[order[i] as int]));
        assert(is_stable_order(keys_along(boxes@, ids@, axis), 0, ids@.len() as usize, order@));
    }
    sorted
}

/// The entries `lo .. hi` of `v`.
fn part(v: &Vec<usize>, lo: usize, hi: usize) -> (out: Vec<usize>)
    requires
        lo <= hi <= v.len(),
    ensures
        out@ == v@.subrange(lo as int, hi as int),
{
    let mut out: Vec<usize> = Vec::new();
    let mut i: usize = lo;
    while i < hi
        invariant
            lo <= i <= hi <= v.len(),
            out@ == v@.subrange(lo as int, i as int),
        decreases hi - i,
    {
        out.push(v[i]);
        i = i + 1;
        assert(out@ =~= v@.subrange(lo as int, i as int));
    }
    out
}

/// The two parts of a list without duplicates have none, share no entry, and
/// hold between them what the list holds.
proof fn lemma_parts(s: Seq<usize>, at: int)
    requires
        0 <= at <= s.len(),
        s.no_duplicates(),
    ensures
        s.subrange(0, at).no_duplicates(),
        s.subrange(at, s.len() as int).no_duplicates(),
        forall|i: int, j: int|
            0 <= i < at && 0 <= j < s.len() - at ==> s.subrange(0, at)[i] != s.subrange(
                at,
                s.len() as int,
            )[j],
        s.subrange(0, at).to_set() + s.subrange(at, s.len() as int).to_set() == s.to_set(),
{
    let a = s.subrange(0, at);
    let b = s.subrange(at, s.len() as int);
    assert(a + b =~= s);
    vstd::seq_lib::seq_to_set_distributes_over_add(a, b);
}

} // verus!
