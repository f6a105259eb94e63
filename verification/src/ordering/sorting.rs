//! Ascending order on identifiers and positions.

use vstd::prelude::*;
use vstd::relations::{sorted_by, total_ordering};
use vstd::seq_lib::{lemma_sorted_unique, to_multiset_contains, to_multiset_len};

verus! {

/// `s` is in ascending order.
pub open spec fn ascending(s: Seq<i32>) -> bool {
    forall|i: int, j: int| 0 <= i < j < s.len() ==> s[i] <= s[j]
}

/// `s` is in ascending order and no value occurs twice.
pub open spec fn strictly_ascending(s: Seq<i32>) -> bool {
    forall|i: int, j: int| 0 <= i < j < s.len() ==> s[i] < s[j]
}

/// Sorts `v` in place with `<[i32]>::sort_unstable`.
///
/// Trusted: the standard library documents that the slice is sorted in
/// ascending order and that the sort only reorders elements, so the
/// values held, with their multiplicities, are those held before.
#[verifier::external_body]
pub(crate) fn sort_ascending(v: &mut Vec<i32>)
    ensures
        ascending(final(v)@),
        final(v)@.to_multiset() == old(v)@.to_multiset(),
{
    v.sort_unstable();
}

/// Sequences that hold the same values as often have the same members and
/// the same length.
pub proof fn lemma_same_members(a: Seq<i32>, b: Seq<i32>)
    requires
        a.to_multiset() == b.to_multiset(),
    ensures
        a.len() == b.len(),
        forall|x: i32| a.contains(x) <==> b.contains(x),
{
    to_multiset_len(a);
    to_multiset_len(b);
    assert forall|x: i32| a.contains(x) <==> b.contains(x) by {
        to_multiset_contains(a, x);
        to_multiset_contains(b, x);
    }
}

/// Two ascending sequences that hold the same values as often are equal.
pub proof fn lemma_ascending_unique(a: Seq<i32>, b: Seq<i32>)
    requires
        ascending(a),
        ascending(b),
        a.to_multiset() == b.to_multiset(),
    ensures
        a == b,
{
    let leq = |x: i32, y: i32| x <= y;
    assert(total_ordering(leq));
    assert(sorted_by(a, leq));
    assert(sorted_by(b, leq));
    lemma_sorted_unique(a, b, leq);
}

/// An ascending arrangement of `orig` is strictly ascending exactly when
/// `orig` holds no value twice.
pub proof fn lemma_strict_iff_distinct(sorted: Seq<i32>, orig: Seq<i32>)
    requires
        ascending(sorted),
        sorted.to_multiset() == orig.to_multiset(),
    ensures
        strictly_ascending(sorted) <==> orig.no_duplicates(),
{
    if strictly_ascending(sorted) {
        assert(sorted.no_duplicates());
        sorted.lemma_multiset_has_no_duplicates();
        orig.lemma_multiset_has_no_duplicates_conv();
    }
    if orig.no_duplicates() {
        orig.lemma_multiset_has_no_duplicates();
        sorted.lemma_multiset_has_no_duplicates_conv();
        assert(strictly_ascending(sorted));
    }
}

/// In a strictly ascending sequence of integers, an entry is at least its
/// distance above the first one.
pub proof fn lemma_strict_from_first(s: Seq<i32>, i: int)
    requires
        strictly_ascending(s),
        0 <= i < s.len(),
    ensures
        s[i] >= s[0] + i,
    decreases i,
{
    if i > 0 {
        lemma_strict_from_first(s, i - 1);
    }
}

/// In a strictly ascending sequence of integers, an entry is at least its
/// distance below the last one.
pub proof fn lemma_strict_to_last(s: Seq<i32>, i: int)
    requires
        strictly_ascending(s),
        0 <= i < s.len(),
    ensures
        s[i] <= s[s.len() - 1] - (s.len() - 1 - i),
    decreases s.len() - i,
{
    if i < s.len() - 1 {
        lemma_strict_to_last(s, i + 1);
    }
}

} // verus!
