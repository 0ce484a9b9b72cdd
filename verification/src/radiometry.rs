use vstd::prelude::*;

verus! {

/// The indices at which `find_interval` may evaluate its predicate for a table
/// of `sz` entries: the interior ones, `1 ..= sz - 2`.
pub open spec fn is_probe(sz: usize, i: usize) -> bool {
    1 <= i && i + 1 < sz
}

/// `r` is a boundary of `pred` in a table of `sz >= 2` entries: the predicate
/// answered `true` at `r` (or `r` is the first index) and `false` at `r + 1`
/// (or `r` is the last index that has a successor, `sz - 2`).
pub open spec fn is_boundary<F: Fn(usize) -> bool>(sz: usize, pred: F, r: usize) -> bool {
    &&& r + 2 <= sz
    &&& r == 0 || call_ensures(pred, (r,), true)
    &&& r + 2 == sz || call_ensures(pred, ((r + 1) as usize,), false)
}

/// Binary search for the entry of a table of `sz` entries after which `pred`
/// turns from `true` to `false`. The result is clamped to `0 ..= sz - 2`, so
/// that it and its successor are both valid indices.
///
/// A table of fewer than two entries has no such index; the result is then
/// `sz - 2` reduced modulo the word size.
pub fn find_interval<F>(sz: usize, pred: F) -> (r: usize) where F: Fn(usize) -> bool
    requires
        sz <= isize::MAX,
        forall|i: usize| is_probe(sz, i) ==> call_requires(pred, (i,)),
    ensures
        sz >= 2 ==> is_boundary(sz, pred, r),
        sz < 2 ==> r == sz - 2 + usize::MAX + 1,
{
    if sz < 2 {
        return sz.wrapping_sub(2);
    }
    let mut size: usize = sz - 2;
    let mut first: usize = 1;
    while size > 0
        invariant
            2 <= sz,
            1 <= first,
            first + size + 1 <= sz,
            forall|i: usize| is_probe(sz, i) ==> call_requires(pred, (i,)),
            first == 1 || call_ensures(pred, ((first - 1) as usize,), true),
            first + size + 1 == sz || call_ensures(pred, ((first + size) as usize,), false),
        decreases size,
    {
        let half: usize = size >> 1;
        assert(half == size / 2) by (bit_vector)
            requires
                half == size >> 1,
        ;
        let middle: usize = first + half;
        assert(is_probe(sz, middle));
        let pred_result = pred(middle);
        if pred_result {
            first = middle + 1;
            size = size - (half + 1);
        } else {
            size = half;
        }
    }
    first - 1
}

} // verus!
