//! The middle value of a sample.

use vstd::prelude::*;
use vstd::relations::*;

verus! {

/// Whether no value is greater than a later one.
pub open spec fn ascending(s: Seq<u64>) -> bool {
    forall|i: int, j: int| 0 <= i <= j < s.len() ==> s[i] <= s[j]
}

/// The value in the middle of a sample once it is sorted; of two in the middle, the greater.
pub open spec fn median_of(s: Seq<u64>) -> u64 {
    s.sort_by(|a: u64, b: u64| a <= b)[s.len() as int / 2]
}

/// Calls `slice::sort_unstable`. Trusted: afterwards the slice holds the same values, each as
/// often as before, in ascending order.
#[verifier::external_body]
fn sort_unstable(values: &mut [u64])
    ensures
        ascending(final(values)@),
        final(values)@.to_multiset() == old(values)@.to_multiset(),
{
    values.sort_unstable()
}

/// There is one way only to put values in ascending order.
proof fn lemma_one_order(a: Seq<u64>, b: Seq<u64>)
    requires
        ascending(a),
        ascending(b),
        a.to_multiset() == b.to_multiset(),
    ensures
        a == b,
    decreases a.len(),
{
    a.to_multiset_ensures();
    b.to_multiset_ensures();
    assert(a.len() == b.len());
    if a.len() == 0 {
        assert(a =~= b);
    } else {
        let n = a.len() - 1;
        assert(a.contains(a[n]) && b.contains(b[n]));
        assert(b.to_multiset().count(a[n]) > 0);
        assert(a.to_multiset().count(b[n]) > 0);
        assert(b.contains(a[n]) && a.contains(b[n]));
        assert(a[n] == b[n]);
        assert(a.remove(n) =~= a.drop_last());
        assert(b.remove(n) =~= b.drop_last());
        lemma_one_order(a.drop_last(), b.drop_last());
        assert(a =~= a.drop_last().push(a[n]));
        assert(b =~= b.drop_last().push(b[n]));
    }
}

/// The median of a sample stands in the middle of the sample in ascending order, whichever way
/// it was brought there.
pub proof fn law_median_in_order(s: Seq<u64>, sorted: Seq<u64>)
    requires
        ascending(sorted),
        sorted.to_multiset() == s.to_multiset(),
    ensures
        sorted.len() == s.len(),
        s.len() > 0 ==> median_of(s) == sorted[s.len() as int / 2],
{
    let leq = |a: u64, b: u64| a <= b;
    assert(total_ordering(leq));
    s.lemma_sort_by_ensures(leq);
    let other = s.sort_by(leq);
    assert forall|i: int, j: int| 0 <= i <= j < other.len() implies other[i] <= other[j] by {
        if i < j {
            assert(leq(other[i], other[j]));
        }
    }
    lemma_one_order(sorted, other);
    s.to_multiset_ensures();
    sorted.to_multiset_ensures();
}

/// The median is one of the values.
pub proof fn law_median_is_a_value(s: Seq<u64>)
    requires
        s.len() > 0,
    ensures
        s.contains(median_of(s)),
{
    let leq = |a: u64, b: u64| a <= b;
    assert(total_ordering(leq));
    s.lemma_sort_by_ensures(leq);
    let sorted = s.sort_by(leq);
    s.to_multiset_ensures();
    sorted.to_multiset_ensures();
    assert(sorted.contains(sorted[s.len() as int / 2]));
    assert(s.to_multiset().count(median_of(s)) > 0);
}

/// Sorts the values and takes the one in the middle.
pub fn median_u64(values: &mut [u64]) -> (r: Option<u64>)
    ensures
        ascending(final(values)@),
        final(values)@.to_multiset() == old(values)@.to_multiset(),
        r == (if old(values)@.len() == 0 {
            None
        } else {
            Some(median_of(old(values)@))
        }),
{
    let ghost before = values@;
    if values.len() == 0 {
        return None;
    }
    sort_unstable(values);
    proof {
        law_median_in_order(before, values@);
    }
    Some(values[values.len() / 2])
}

} // verus!
