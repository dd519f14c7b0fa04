//! In-place ascending bubble sort over a vector of integers.
//!
//! For a vector of length `n` the sort performs `n` outer passes; pass `i`
//! compares adjacent pairs across indices `[0, n - i - 1)` and swaps a pair
//! whenever the left value strictly exceeds the right. Equal values are
//! never swapped, and there is deliberately no early exit when a pass makes
//! no swap.

use vstd::prelude::*;

use vstd::relations::{sorted_by, total_ordering};
use vstd::seq_lib::group_to_multiset_ensures;
use vstd::seq_lib::lemma_multiset_commutative;
use vstd::seq_lib::lemma_sorted_unique;

verus! {

/// `s` is in non-descending order.
pub open spec fn sorted(s: Seq<i32>) -> bool {
    forall|i: int, j: int| 0 <= i <= j < s.len() ==> s[i] <= s[j]
}

/// Swapping two adjacent positions of a sequence keeps the multiset of
/// its values unchanged.
proof fn lemma_swap_adjacent_multiset(s: Seq<i32>, j: int)
    requires
        0 <= j,
        j + 1 < s.len(),
    ensures
        s.update(j, s[j + 1]).update(j + 1, s[j]).to_multiset() == s.to_multiset(),
{
    broadcast use group_to_multiset_ensures;

    let t = s.update(j, s[j + 1]).update(j + 1, s[j]);
    let prefix = s.subrange(0, j);
    let pair = seq![s[j], s[j + 1]];
    let swapped = seq![s[j + 1], s[j]];
    let suffix = s.subrange(j + 2, s.len() as int);
    assert(s =~= prefix + (pair + suffix));
    assert(t =~= prefix + (swapped + suffix));
    lemma_multiset_commutative(prefix, pair + suffix);
    lemma_multiset_commutative(prefix, swapped + suffix);
    lemma_multiset_commutative(pair, suffix);
    lemma_multiset_commutative(swapped, suffix);
    assert(pair =~= Seq::<i32>::empty().push(s[j]).push(s[j + 1]));
    assert(swapped =~= Seq::<i32>::empty().push(s[j + 1]).push(s[j]));
    assert(pair.to_multiset() =~= swapped.to_multiset());
}

/// Sorts `arr` in place into non-descending order; the multiset of stored
/// values is exactly preserved.
pub fn sort(arr: &mut Vec<i32>)
    ensures
        sorted(final(arr)@),
        final(arr)@.to_multiset() == old(arr)@.to_multiset(),
        final(arr)@.len() == old(arr)@.len(),
{
    let n = arr.len();

    for i in 0..n
        invariant
            arr@.len() == n,
            arr@.to_multiset() == old(arr)@.to_multiset(),
            forall|k: int, l: int| n - i <= k <= l < n ==> arr@[k] <= arr@[l],
            forall|k: int, l: int| 0 <= k < n - i && n - i <= l < n ==> arr@[k] <= arr@[l],
    {
        for j in 0..(n - i - 1)
            invariant
                i < n,
                arr@.len() == n,
                j < n - i,
                arr@.to_multiset() == old(arr)@.to_multiset(),
                forall|k: int, l: int| n - i <= k <= l < n ==> arr@[k] <= arr@[l],
                forall|k: int, l: int| 0 <= k < n - i && n - i <= l < n ==> arr@[k] <= arr@[l],
                forall|k: int| 0 <= k <= j ==> arr@[k] <= arr@[j as int],
        {
            if arr[j] > arr[j + 1] {
                let ghost before = arr@;
                let left = arr[j];
                let right = arr[j + 1];
                arr[j] = right;
                arr[j + 1] = left;
                proof {
                    lemma_swap_adjacent_multiset(before, j as int);
                }
            }
        }
    }
}

/// Sorted sequences over the same multiset of values are identical; in
/// particular sorting an already sorted sequence gives it back unchanged,
/// and any two runs of `sort` from inputs with equal contents agree.
pub proof fn lemma_sorted_same_multiset_equal(s: Seq<i32>, t: Seq<i32>)
    requires
        sorted(s),
        sorted(t),
        s.to_multiset() == t.to_multiset(),
    ensures
        s == t,
{
    let leq = |x: i32, y: i32| x <= y;
    assert forall|i: int, j: int| 0 <= i < j < s.len() implies #[trigger] leq(s[i], s[j]) by {
        assert(s[i] <= s[j]);
    }
    assert forall|i: int, j: int| 0 <= i < j < t.len() implies #[trigger] leq(t[i], t[j]) by {
        assert(t[i] <= t[j]);
    }
    assert(sorted_by(s, leq));
    assert(sorted_by(t, leq));
    assert(total_ordering(leq));
    lemma_sorted_unique(s, t, leq);
    assert(s =~= t);
}

} // verus!
