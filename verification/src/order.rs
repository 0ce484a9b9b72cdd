use crate::scalar::Scalar;
use vstd::prelude::*;

verus! {

/// Position `a` comes before position `b` when `keys` is sorted stably: its
/// key is smaller in the total order, or the keys are one pattern and `a` is
/// the earlier position.
pub open spec fn before(keys: Seq<Scalar>, a: usize, b: usize) -> bool {
    keys[a as int].total_key() < keys[b as int].total_key() || (keys[a as int].total_key()
        == keys[b as int].total_key() && a < b)
}

/// `order` lists positions of `keys`, each before the next.
pub open spec fn ascending(keys: Seq<Scalar>, order: Seq<usize>) -> bool {
    &&& forall|i: int| 0 <= i < order.len() ==> (#[trigger] order[i]) < keys.len()
    &&& forall|i: int, j: int|
        0 <= i < j < order.len() ==> before(keys, #[trigger] order[i], #[trigger] order[j])
}

/// `order` is the stable sorting order of the positions `lo .. hi` of `keys`:
/// it lists each of them once, by ascending key, positions of one key in
/// their own order. There is exactly one such list.
pub open spec fn is_stable_order(keys: Seq<Scalar>, lo: usize, hi: usize, order: Seq<usize>) -> bool {
    &&& order.len() == hi - lo
    &&& ascending(keys, order)
    &&& order.to_set() == Set::new(|p: usize| lo <= p < hi)
}

fn merge(keys: &Vec<Scalar>, left: Vec<usize>, right: Vec<usize>, Ghost(mid): Ghost<usize>) -> (out:
    Vec<usize>)
    requires
        ascending(keys@, left@),
        ascending(keys@, right@),
        forall|i: int| 0 <= i < left.len() ==> (#[trigger] left[i]) < mid,
        forall|i: int| 0 <= i < right.len() ==> mid <= (#[trigger] right[i]),
        left.len() + right.len() <= usize::MAX,
    ensures
        ascending(keys@, out@),
        out.len() == left.len() + right.len(),
        out@.to_set() == left@.to_set() + right@.to_set(),
{
    broadcast use vstd::seq_lib::group_seq_properties;

    let mut out: Vec<usize> = Vec::new();
    let mut i: usize = 0;
    let mut j: usize = 0;
    while i < left.len() || j < right.len()
        invariant
            i <= left.len(),
            j <= right.len(),
            out.len() == i + j,
            ascending(keys@, left@),
            ascending(keys@, right@),
            forall|k: int| 0 <= k < left.len() ==> (#[trigger] left[k]) < mid,
            forall|k: int| 0 <= k < right.len() ==> mid <= (#[trigger] right[k]),
            ascending(keys@, out@),
            forall|k: int| 0 <= k < out.len() && i < left.len() ==> before(keys@, #[trigger] out[k], left[i as int]),
            forall|k: int| 0 <= k < out.len() && j < right.len() ==> before(keys@, #[trigger] out[k], right[j as int]),
            out@.to_set() == left@.take(i as int).to_set() + right@.take(j as int).to_set(),
        decreases left.len() - i + right.len() - j,
    {
        let take_left = if i == left.len() {
            false
        } else if j == right.len() {
            true
        } else {
            keys[left[i]].total_le(keys[right[j]])
        };
        if take_left {
            let p = left[i];
            proof {
                assert(left@.take(i as int + 1) =~= left@.take(i as int).push(p));
                assert forall|k: int| 0 <= k < out.len() + 1 && i + 1 < left.len() implies before(
                    keys@,
                    #[trigger] out@.push(p)[k],
                    left[i as int + 1],
                ) by {
                    assert(before(keys@, left[i as int], left[i as int + 1]));
                }
            }
            let ghost prior = out@;
            out.push(p);
            i = i + 1;
            proof {
                prior.lemma_push_to_set_commute(p);
                left@.take(i as int - 1).lemma_push_to_set_commute(p);
                assert(out@.to_set() =~= left@.take(i as int).to_set() + right@.take(
                    j as int,
                ).to_set());
            }
        } else {
            let p = right[j];
            proof {
                assert(right@.take(j as int + 1) =~= right@.take(j as int).push(p));
                assert forall|k: int| 0 <= k < out.len() + 1 && j + 1 < right.len() implies before(
                    keys@,
                    #[trigger] out@.push(p)[k],
                    right[j as int + 1],
                ) by {
                    assert(before(keys@, right[j as int], right[j as int + 1]));
                }
            }
            let ghost prior = out@;
            out.push(p);
            j = j + 1;
            proof {
                prior.lemma_push_to_set_commute(p);
                right@.take(j as int - 1).lemma_push_to_set_commute(p);
                assert(out@.to_set() =~= left@.take(i as int).to_set() + right@.take(
                    j as int,
                ).to_set());
            }
        }
    }
    proof {
        assert(left@.take(i as int) =~= left@);
        assert(right@.take(j as int) =~= right@);
    }
    out
}

fn order_range(keys: &Vec<Scalar>, lo: usize, hi: usize) -> (order: Vec<usize>)
    requires
        lo <= hi <= keys.len(),
    ensures
        is_stable_order(keys@, lo, hi, order@),
        forall|i: int| 0 <= i < order.len() ==> lo <= (#[trigger] order[i]) < hi,
    decreases hi - lo,
{
    broadcast use vstd::seq_lib::group_seq_properties;

    if hi - lo == 0 {
        let order: Vec<usize> = Vec::new();
        assert(order@.to_set() =~= Set::new(|p: usize| lo <= p < hi));
        order
    } else if hi - lo == 1 {
        let mut order: Vec<usize> = Vec::new();
        order.push(lo);
        assert(order@ =~= Seq::<usize>::empty().push(lo));
        assert(order@.to_set() =~= Set::new(|p: usize| lo <= p < hi));
        order
    } else {
        let mid = lo + (hi - lo) / 2;
        let left = order_range(keys, lo, mid);
        let right = order_range(keys, mid, hi);
        let order = merge(keys, left, right, Ghost(mid));
        proof {
            assert(order@.to_set() =~= Set::new(|p: usize| lo <= p < hi));
        }
        assert forall|i: int| 0 <= i < order.len() implies lo <= (#[trigger] order[i]) < hi by {
            assert(order@.to_set().contains(order[i]));
        }
        order
    }
}

/// The order in which a stable sort by the total order of the keys lists the
/// positions of `keys`.
pub fn stable_order(keys: &Vec<Scalar>) -> (order: Vec<usize>)
    ensures
        is_stable_order(keys@, 0, keys.len(), order@),
{
    order_range(keys, 0, keys.len())
}

/// A stable order lists no position twice.
pub proof fn lemma_ascending_no_duplicates(keys: Seq<Scalar>, order: Seq<usize>)
    requires
        ascending(keys, order),
    ensures
        order.no_duplicates(),
{
    assert forall|i: int, j: int| 0 <= i < order.len() && 0 <= j < order.len() && i != j implies order[i]
        != order[j] by {
        if i < j {
            assert(before(keys, order[i], order[j]));
        } else {
            assert(before(keys, order[j], order[i]));
        }
    }
}

/// There is one stable order: two lists that both are it are equal.
pub proof fn lemma_stable_order_unique(
    keys: Seq<Scalar>,
    lo: usize,
    hi: usize,
    a: Seq<usize>,
    b: Seq<usize>,
)
    requires
        is_stable_order(keys, lo, hi, a),
        is_stable_order(keys, lo, hi, b),
    ensures
        a == b,
{
    lemma_unique_by_set(keys, a, b);
}

proof fn lemma_tail_same_set(a: Seq<usize>, b: Seq<usize>)
    requires
        a.len() > 0,
        b.len() > 0,
        a[0] == b[0],
        a.no_duplicates(),
        b.no_duplicates(),
        a.to_set() == b.to_set(),
    ensures
        a.drop_first().to_set() == b.drop_first().to_set(),
{
    let ra = a.drop_first();
    let rb = b.drop_first();
    assert forall|p: usize| ra.to_set().contains(p) <==> rb.to_set().contains(p) by {
        if ra.to_set().contains(p) {
            let i = choose|i: int| 0 <= i < ra.len() && ra[i] == p;
            assert(a[i + 1] == p);
            assert(a.to_set().contains(p));
            assert(b.to_set().contains(p));
            let j = choose|j: int| 0 <= j < b.len() && b[j] == p;
            assert(j != 0);
            assert(rb[j - 1] == p);
        }
        if rb.to_set().contains(p) {
            let i = choose|i: int| 0 <= i < rb.len() && rb[i] == p;
            assert(b[i + 1] == p);
            assert(b.to_set().contains(p));
            assert(a.to_set().contains(p));
            let j = choose|j: int| 0 <= j < a.len() && a[j] == p;
            assert(j != 0);
            assert(ra[j - 1] == p);
        }
    }
    assert(ra.to_set() =~= rb.to_set());
}

proof fn lemma_unique_by_set(keys: Seq<Scalar>, a: Seq<usize>, b: Seq<usize>)
    requires
        ascending(keys, a),
        ascending(keys, b),
        a.to_set() == b.to_set(),
        a.len() == b.len(),
    ensures
        a == b,
    decreases a.len(),
{
    if a.len() > 0 {
        assert(a.to_set().contains(a[0]));
        assert(b.to_set().contains(b[0]));
        let ia = choose|i: int| 0 <= i < b.len() && b[i] == a[0];
        let ib = choose|i: int| 0 <= i < a.len() && a[i] == b[0];
        if ia != 0 {
            assert(before(keys, b[0], b[ia]));
        }
        if ib != 0 {
            assert(before(keys, a[0], a[ib]));
        }
        assert(a[0] == b[0]);
        lemma_ascending_no_duplicates(keys, a);
        lemma_ascending_no_duplicates(keys, b);
        lemma_tail_same_set(a, b);
        let ra = a.drop_first();
        let rb = b.drop_first();
        assert(ascending(keys, ra)) by {
            assert forall|i: int, j: int| 0 <= i < j < ra.len() implies before(
                keys,
                #[trigger] ra[i],
                #[trigger] ra[j],
            ) by {
                assert(before(keys, a[i + 1], a[j + 1]));
            }
            assert forall|i: int| 0 <= i < ra.len() implies (#[trigger] ra[i]) < keys.len() by {
                assert(a[i + 1] < keys.len());
            }
        }
        assert(ascending(keys, rb)) by {
            assert forall|i: int, j: int| 0 <= i < j < rb.len() implies before(
                keys,
                #[trigger] rb[i],
                #[trigger] rb[j],
            ) by {
                assert(before(keys, b[i + 1], b[j + 1]));
            }
            assert forall|i: int| 0 <= i < rb.len() implies (#[trigger] rb[i]) < keys.len() by {
                assert(b[i + 1] < keys.len());
            }
        }
        lemma_unique_by_set(keys, ra, rb);
        assert(a =~= seq![a[0]] + ra);
        assert(b =~= seq![b[0]] + rb);
    } else {
        assert(a =~= b);
    }
}

} // verus!
