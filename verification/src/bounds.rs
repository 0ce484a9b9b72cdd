use crate::aabb::AABB;
use crate::bvh::{BvhChild, BvhNode};
use vstd::prelude::*;

verus! {

/// `around` computes the function `union`.
pub open spec fn computes<U: Fn(&AABB, &AABB) -> AABB>(around: U, union: spec_fn(AABB, AABB) -> AABB) -> bool {
    forall|a: AABB, b: AABB, out: AABB| #[trigger]
        call_ensures(around, (&a, &b), out) ==> out == union(a, b)
}

/// `union` behaves as the union of boxes does: it does not matter in which
/// order or in which grouping boxes are united, a box united with itself is
/// itself, and the empty box adds nothing.
pub open spec fn is_union(union: spec_fn(AABB, AABB) -> AABB) -> bool {
    &&& forall|a: AABB, b: AABB| #[trigger] union(a, b) == union(b, a)
    &&& forall|a: AABB, b: AABB, c: AABB| #[trigger] union(union(a, b), c) == union(a, union(b, c))
    &&& forall|a: AABB| #[trigger] union(a, a) == a
    &&& forall|a: AABB| #[trigger] union(AABB::empty_spec(), a) == a
}

/// The box around the objects `ids`: the union of their boxes, one after
/// the other, from the empty box on.
pub open spec fn around_all(boxes: Seq<AABB>, ids: Seq<usize>, union: spec_fn(AABB, AABB) -> AABB) -> AABB {
    ids.fold_left(AABB::empty_spec(), |acc: AABB, i: usize| union(acc, boxes[i as int]))
}

proof fn lemma_around_concat(
    boxes: Seq<AABB>,
    a: Seq<usize>,
    b: Seq<usize>,
    union: spec_fn(AABB, AABB) -> AABB,
)
    requires
        is_union(union),
    ensures
        around_all(boxes, a + b, union) == union(
            around_all(boxes, a, union),
            around_all(boxes, b, union),
        ),
    decreases b.len(),
{
    let f = |acc: AABB, i: usize| union(acc, boxes[i as int]);
    let e = AABB::empty_spec();
    if b.len() == 0 {
        assert(a + b =~= a);
        assert(union(around_all(boxes, a, union), e) == union(e, around_all(boxes, a, union)));
    } else {
        let rest = b.drop_last();
        let last = b.last();
        assert((a + b).drop_last() =~= a + rest);
        assert((a + b).last() == last);
        lemma_around_concat(boxes, a, rest, union);
        let x = around_all(boxes, a, union);
        let y = around_all(boxes, rest, union);
        assert(around_all(boxes, a + b, union) == union(union(x, y), boxes[last as int]));
        assert(around_all(boxes, b, union) == union(y, boxes[last as int]));
    }
}

impl BvhChild {
    proof fn lemma_bounds(self, boxes: Seq<AABB>, around: impl Fn(&AABB, &AABB) -> AABB, union: spec_fn(
        AABB,
        AABB,
    ) -> AABB)
        requires
            computes(around, union),
            is_union(union),
            self.boxed(boxes, around),
        ensures
            self.bounds(boxes) == around_all(boxes, self.leaves(), union),
        decreases self,
    {
        match self {
            BvhChild::Leaf(i) => {
                let ids = seq![i];
                assert(self.leaves() =~= ids);
                assert(ids.drop_last() =~= Seq::<usize>::empty());
                assert(ids.last() == i);
                assert(around_all(boxes, ids, union) == union(
                    around_all(boxes, ids.drop_last(), union),
                    boxes[i as int],
                ));
            },
            BvhChild::Node(n) => {
                n.lemma_bounds(boxes, around, union);
            },
        }
    }
}

impl BvhNode {
    proof fn lemma_bounds(self, boxes: Seq<AABB>, around: impl Fn(&AABB, &AABB) -> AABB, union: spec_fn(
        AABB,
        AABB,
    ) -> AABB)
        requires
            computes(around, union),
            is_union(union),
            self.boxed(boxes, around),
        ensures
            self.bbox == around_all(boxes, self.leaves(), union),
        decreases self,
    {
        self.left.lemma_bounds(boxes, around, union);
        self.right.lemma_bounds(boxes, around, union);
        lemma_around_concat(boxes, self.left.leaves(), self.right.leaves(), union);
    }

    /// The box of a hierarchy is the box around all objects at its leaves:
    /// where `around` computes a union of boxes, the box of the node that
    /// was built over the `n` objects of a list is the union of all their
    /// boxes, taken in the order of the list from the empty box on.
    pub proof fn lemma_box_is_around_all(
        self,
        boxes: Seq<AABB>,
        around: impl Fn(&AABB, &AABB) -> AABB,
        union: spec_fn(AABB, AABB) -> AABB,
    )
        requires
            1 <= boxes.len() <= usize::MAX,
            computes(around, union),
            is_union(union),
            self.boxed(boxes, around),
            self.covers(Seq::new(boxes.len(), |i: int| i as usize)),
        ensures
            self.bbox == boxes.fold_left(AABB::empty_spec(), union),
    {
        let ids = Seq::new(boxes.len(), |i: int| i as usize);
        let f = |acc: AABB, i: usize| union(acc, boxes[i as int]);
        let e = AABB::empty_spec();
        self.lemma_bounds(boxes, around, union);
        assert(around_all(boxes, self.leaves(), union) == around_all(boxes, ids, union)) by {
            if boxes.len() == 1 {
                let twice = seq![0usize, 0usize];
                let once = seq![0usize];
                assert(ids =~= once);
                assert(self.leaves() =~= twice);
                assert(twice =~= once + once);
                lemma_around_concat(boxes, once, once, union);
            } else {
                assert(vstd::seq_lib::commutative_foldl(f)) by {
                    assert forall|x: usize, y: usize, v: AABB| #[trigger]
                        f(f(v, x), y) == f(f(v, y), x) by {
                        let bx = boxes[x as int];
                        let by = boxes[y as int];
                        assert(union(union(v, bx), by) == union(v, union(bx, by)));
                        assert(union(bx, by) == union(by, bx));
                        assert(union(union(v, by), bx) == union(v, union(by, bx)));
                    }
                }
                lemma_same_multiset(self.leaves(), ids);
                vstd::seq_lib::lemma_fold_left_permutation(self.leaves(), ids, f, e);
            }
        }
        lemma_around_list(boxes, boxes.len() as int, union);
        assert(ids.take(boxes.len() as int) =~= ids);
        assert(boxes.take(boxes.len() as int) =~= boxes);
    }
}

/// Two lists without duplicates that hold the same entries hold them equally
/// often.
proof fn lemma_same_multiset(a: Seq<usize>, b: Seq<usize>)
    requires
        a.no_duplicates(),
        b.no_duplicates(),
        a.to_set() == b.to_set(),
    ensures
        a.to_multiset() == b.to_multiset(),
{
    broadcast use vstd::seq_lib::group_to_multiset_ensures;

    a.lemma_multiset_has_no_duplicates();
    b.lemma_multiset_has_no_duplicates();
    assert forall|x: usize| a.to_multiset().count(x) == b.to_multiset().count(x) by {
        assert(a.contains(x) <==> a.to_set().contains(x));
        assert(b.contains(x) <==> b.to_set().contains(x));
        assert(a.to_multiset().count(x) > 0 <==> a.contains(x));
        assert(b.to_multiset().count(x) > 0 <==> b.contains(x));
    }
    assert(a.to_multiset() =~= b.to_multiset());
}

/// The box around the first `k` objects of a list is the union of the first
/// `k` boxes.
proof fn lemma_around_list(boxes: Seq<AABB>, k: int, union: spec_fn(AABB, AABB) -> AABB)
    requires
        0 <= k <= boxes.len() <= usize::MAX,
    ensures
        around_all(boxes, Seq::new(boxes.len(), |i: int| i as usize).take(k), union) == boxes.take(
            k,
        ).fold_left(AABB::empty_spec(), union),
    decreases k,
{
    let ids = Seq::new(boxes.len(), |i: int| i as usize);
    if k > 0 {
        lemma_around_list(boxes, k - 1, union);
        assert(ids.take(k).drop_last() =~= ids.take(k - 1));
        assert(boxes.take(k).drop_last() =~= boxes.take(k - 1));
        assert(ids.take(k).last() == (k - 1) as usize);
        assert(boxes.take(k).last() == boxes[k - 1]);
    } else {
        assert(ids.take(0) =~= Seq::<usize>::empty());
        assert(boxes.take(0) =~= Seq::<AABB>::empty());
    }
}

} // verus!
