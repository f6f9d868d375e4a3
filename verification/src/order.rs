//! Putting offsets in descending order.

use vstd::prelude::*;

verus! {

/// Each value is at most the ones after it.
pub open spec fn ascending(values: Seq<usize>) -> bool {
    forall|i: int, j: int| 0 <= i <= j < values.len() ==> values[i] <= values[j]
}

/// Each value is at least the ones after it.
pub open spec fn descending(values: Seq<usize>) -> bool {
    forall|i: int, j: int| 0 <= i <= j < values.len() ==> values[i] >= values[j]
}

/// Calls `sort_unstable` of std on the vector's slice. Its documentation
/// says that it sorts the slice in ascending order; a sort keeps the
/// values, each as often as it occurred.
#[verifier::external_body]
fn sort_ascending(values: &mut Vec<usize>)
    ensures
        final(values)@.to_multiset() == old(values)@.to_multiset(),
        ascending(final(values)@),
{
    values.sort_unstable();
}

/// Sorts the values from the largest to the smallest.
pub fn sort_descending(values: &mut Vec<usize>)
    ensures
        final(values)@.to_multiset() == old(values)@.to_multiset(),
        final(values)@.len() == old(values)@.len(),
        descending(final(values)@),
{
    sort_ascending(values);
    let ghost sorted = values@;
    let len: usize = values.len();
    let mut turned: Vec<usize> = Vec::with_capacity(len);
    let mut taken: usize = 0;
    while taken < len
        invariant
            taken <= len,
            len == values@.len(),
            values@ == sorted,
            turned@.len() == taken,
            forall|k: int| 0 <= k < taken ==> turned@[k] == sorted[len - 1 - k],
        decreases len - taken,
    {
        turned.push(values[len - 1 - taken]);
        taken += 1;
    }
    proof {
        assert(turned@ =~= sorted.reverse());
        sorted.lemma_reverse_to_multiset();
        sorted.to_multiset_ensures();
        old(values)@.to_multiset_ensures();
    }
    *values = turned;
}

/// Law: sequences with the same values, each as often, lie within the same bounds.
pub proof fn lemma_bounds_carry_over(before: Seq<usize>, after: Seq<usize>, low: int, high: int)
    requires
        before.to_multiset() == after.to_multiset(),
        forall|k: int| 0 <= k < before.len() ==> low <= #[trigger] before[k] < high,
    ensures
        after.len() == before.len(),
        forall|k: int| 0 <= k < after.len() ==> low <= #[trigger] after[k] < high,
{
    before.to_multiset_ensures();
    after.to_multiset_ensures();
    assert forall|k: int| 0 <= k < after.len() implies low <= #[trigger] after[k] < high by {
        let v = after[k];
        assert(after.contains(v));
        assert(after.to_multiset().count(v) > 0);
        assert(before.contains(v));
        let j = choose|j: int| 0 <= j < before.len() && before[j] == v;
        assert(low <= before[j] < high);
    }
}

} // verus!
