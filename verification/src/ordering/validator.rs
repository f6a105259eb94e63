//! The permutation validator: decides whether a submitted ordering is a
//! legal reordering of the columns a board currently has.

use vstd::prelude::*;
use crate::ordering::sorting::{
    ascending, lemma_ascending_unique, lemma_same_members, lemma_strict_from_first,
    lemma_strict_iff_distinct, lemma_strict_to_last, sort_ascending, strictly_ascending,
};

verus! {

/// One entry of a submitted ordering: a column and the position asked for it.
#[derive(Debug, Clone, Copy, PartialEq, Eq, Structural)]
pub struct ColumnOrderUpdate {
    pub id: i32,
    pub position: i32,
}

/// A submitted ordering for all the columns of one board.
#[derive(Debug, Clone, PartialEq, Eq)]
pub struct BulkColumnOrderUpdate {
    pub board_id: i32,
    pub columns: Vec<ColumnOrderUpdate>,
}

/// The rule that a submitted ordering breaks.
#[derive(Debug, Clone, Copy, PartialEq, Eq, Structural)]
pub enum OrderViolation {
    /// The board has columns and the ordering names none.
    EmptyPayload,
    /// Some position is below zero.
    NonNegativeViolation,
    /// The ordering does not name as many columns as the board has.
    CountMismatch,
    /// The columns named are not the columns of the board.
    SetMismatch,
    /// Two entries ask for the same position.
    DuplicatePosition,
    /// The positions are distinct but are not `0, 1, .., n - 1`.
    NonContiguousRange,
}

/// The identifiers that an ordering names, in the order submitted.
pub open spec fn payload_ids(columns: Seq<ColumnOrderUpdate>) -> Seq<i32> {
    Seq::new(columns.len(), |i: int| columns[i].id)
}

/// The positions that an ordering asks for, in the order submitted.
pub open spec fn payload_positions(columns: Seq<ColumnOrderUpdate>) -> Seq<i32> {
    Seq::new(columns.len(), |i: int| columns[i].position)
}

/// Some entry of `positions` is below zero.
pub open spec fn has_negative(positions: Seq<i32>) -> bool {
    exists|i: int| 0 <= i < positions.len() && positions[i] < 0
}

/// Every entry of `positions` lies in `0 .. positions.len()`.
pub open spec fn within_range(positions: Seq<i32>) -> bool {
    forall|i: int|
        0 <= i < positions.len() ==> 0 <= #[trigger] positions[i] && positions[i] < positions.len()
}

/// `positions` is a dense zero-based permutation: a one-to-one assignment
/// onto `0, 1, .., n - 1`, where `n` is its length.
pub open spec fn dense_permutation(positions: Seq<i32>) -> bool {
    positions.no_duplicates() && within_range(positions)
}

/// The first rule, in the order in which the rules are applied, that the
/// ordering `columns` breaks for a board whose columns are `existing`;
/// `None` when it is a legal reordering.
///
/// The identifiers named are held against those of the board with their
/// multiplicities. Identifiers of a board are distinct, and for distinct
/// identifiers that is comparing the two sets.
pub open spec fn first_violation(existing: Seq<i32>, columns: Seq<ColumnOrderUpdate>) -> Option<
    OrderViolation,
> {
    if existing.len() == 0 && columns.len() == 0 {
        None
    } else if columns.len() == 0 {
        Some(OrderViolation::EmptyPayload)
    } else if has_negative(payload_positions(columns)) {
        Some(OrderViolation::NonNegativeViolation)
    } else if existing.len() != columns.len() {
        Some(OrderViolation::CountMismatch)
    } else if existing.to_multiset() != payload_ids(columns).to_multiset() {
        Some(OrderViolation::SetMismatch)
    } else if !payload_positions(columns).no_duplicates() {
        Some(OrderViolation::DuplicatePosition)
    } else if !within_range(payload_positions(columns)) {
        Some(OrderViolation::NonContiguousRange)
    } else {
        None
    }
}

/// An ascending arrangement of non-negative positions starts at zero and
/// ends at `n - 1` exactly when the positions are a dense permutation.
proof fn lemma_dense_by_ends(sorted: Seq<i32>, positions: Seq<i32>)
    requires
        strictly_ascending(sorted),
        sorted.to_multiset() == positions.to_multiset(),
        !has_negative(positions),
        positions.len() > 0,
    ensures
        sorted.len() == positions.len(),
        (sorted[0] == 0 && sorted[sorted.len() - 1] == sorted.len() - 1) <==> within_range(
            positions,
        ),
{
    lemma_same_members(sorted, positions);
    let n = sorted.len() as int;
    assert(positions.contains(sorted[0]));
    if sorted[0] == 0 && sorted[n - 1] == n - 1 {
        assert forall|i: int| 0 <= i < positions.len() implies 0 <= #[trigger] positions[i]
            && positions[i] < positions.len() by {
            assert(positions.contains(positions[i]));
            let j = choose|j: int| 0 <= j < sorted.len() && sorted[j] == positions[i];
            lemma_strict_to_last(sorted, j);
        }
    }
    if within_range(positions) {
        assert(positions.contains(sorted[n - 1]));
        lemma_strict_from_first(sorted, n - 1);
        lemma_strict_to_last(sorted, 0);
    }
}

/// Whether some entry of the ordering asks for a position below zero.
fn any_negative_position(columns: &Vec<ColumnOrderUpdate>) -> (found: bool)
    ensures
        found == has_negative(payload_positions(columns@)),
{
    let mut i: usize = 0;
    while i < columns.len()
        invariant
            i <= columns.len(),
            forall|k: int| 0 <= k < i ==> payload_positions(columns@)[k] >= 0,
        decreases columns.len() - i,
    {
        if columns[i].position < 0 {
            assert(payload_positions(columns@)[i as int] < 0);
            return true;
        }
        i += 1;
    }
    false
}

/// The identifiers of the ordering, in the order submitted.
fn collect_ids(columns: &Vec<ColumnOrderUpdate>) -> (ids: Vec<i32>)
    ensures
        ids@ == payload_ids(columns@),
{
    let mut ids: Vec<i32> = Vec::new();
    let mut i: usize = 0;
    while i < columns.len()
        invariant
            i <= columns.len(),
            ids@.len() == i,
            forall|k: int| 0 <= k < i ==> ids@[k] == columns@[k].id,
        decreases columns.len() - i,
    {
        ids.push(columns[i].id);
        i += 1;
    }
    ids
}

/// The positions of the ordering, in the order submitted.
fn collect_positions(columns: &Vec<ColumnOrderUpdate>) -> (positions: Vec<i32>)
    ensures
        positions@ == payload_positions(columns@),
{
    let mut positions: Vec<i32> = Vec::new();
    let mut i: usize = 0;
    while i < columns.len()
        invariant
            i <= columns.len(),
            positions@.len() == i,
            forall|k: int| 0 <= k < i ==> positions@[k] == columns@[k].position,
        decreases columns.len() - i,
    {
        positions.push(columns[i].position);
        i += 1;
    }
    positions
}

/// A copy of `ids`.
fn copy_ids(ids: &Vec<i32>) -> (copy: Vec<i32>)
    ensures
        copy@ == ids@,
{
    let mut copy: Vec<i32> = Vec::new();
    let mut i: usize = 0;
    while i < ids.len()
        invariant
            i <= ids.len(),
            copy@.len() == i,
            forall|k: int| 0 <= k < i ==> copy@[k] == ids@[k],
        decreases ids.len() - i,
    {
        copy.push(ids[i]);
        i += 1;
    }
    copy
}

/// Whether two vectors hold the same values in the same order.
fn same_sequence(a: &Vec<i32>, b: &Vec<i32>) -> (same: bool)
    ensures
        same == (a@ == b@),
{
    if a.len() != b.len() {
        return false;
    }
    let mut i: usize = 0;
    while i < a.len()
        invariant
            i <= a.len(),
            a.len() == b.len(),
            forall|k: int| 0 <= k < i ==> a@[k] == b@[k],
        decreases a.len() - i,
    {
        if a[i] != b[i] {
            return false;
        }
        i += 1;
    }
    assert(a@ =~= b@);
    true
}

/// Whether an ascending vector holds some value twice.
fn has_repeated_neighbour(sorted: &Vec<i32>) -> (found: bool)
    requires
        ascending(sorted@),
    ensures
        found == !strictly_ascending(sorted@),
{
    if sorted.len() == 0 {
        return false;
    }
    let mut i: usize = 1;
    while i < sorted.len()
        invariant
            1 <= i <= sorted.len(),
            ascending(sorted@),
            strictly_ascending(sorted@.take(i as int)),
        decreases sorted.len() - i,
    {
        if sorted[i - 1] == sorted[i] {
            return true;
        }
        proof {
            let before = sorted@.take(i as int);
            let after = sorted@.take(i + 1);
            assert forall|a: int, b: int| 0 <= a < b < after.len() implies after[a] < after[b] by {
                if b < i {
                    assert(before[a] < before[b]);
                } else {
                    assert(sorted@[a] <= sorted@[i - 1]);
                }
            }
        }
        i += 1;
    }
    assert(sorted@.take(i as int) =~= sorted@);
    false
}

/// Decides whether `columns` is a legal reordering of a board whose columns
/// are `existing`. The rules are applied in order and the first one broken
/// is reported.
pub fn validate_order(existing: &Vec<i32>, columns: &Vec<ColumnOrderUpdate>) -> (outcome: Result<
    (),
    OrderViolation,
>)
    ensures
        outcome == match first_violation(existing@, columns@) {
            None => Ok::<(), OrderViolation>(()),
            Some(violation) => Err::<(), OrderViolation>(violation),
        },
{
    if existing.len() == 0 && columns.len() == 0 {
        return Ok(());
    }
    if columns.len() == 0 {
        return Err(OrderViolation::EmptyPayload);
    }
    if any_negative_position(columns) {
        return Err(OrderViolation::NonNegativeViolation);
    }
    if existing.len() != columns.len() {
        return Err(OrderViolation::CountMismatch);
    }
    let mut existing_sorted = copy_ids(existing);
    sort_ascending(&mut existing_sorted);
    let mut payload_sorted = collect_ids(columns);
    sort_ascending(&mut payload_sorted);
    let same = same_sequence(&existing_sorted, &payload_sorted);
    proof {
        if existing@.to_multiset() == payload_ids(columns@).to_multiset() {
            lemma_ascending_unique(existing_sorted@, payload_sorted@);
        }
    }
    if !same {
        return Err(OrderViolation::SetMismatch);
    }
    let mut positions = collect_positions(columns);
    sort_ascending(&mut positions);
    proof {
        lemma_strict_iff_distinct(positions@, payload_positions(columns@));
    }
    if has_repeated_neighbour(&positions) {
        return Err(OrderViolation::DuplicatePosition);
    }
    proof {
        lemma_dense_by_ends(positions@, payload_positions(columns@));
    }
    // Distinct positions from zero upwards are dense exactly when the
    // smallest is zero and the largest is one less than their number.
    let last = positions.len() - 1;
    if positions[0] != 0 || positions[last] < 0 || positions[last] as usize != last {
        return Err(OrderViolation::NonContiguousRange);
    }
    Ok(())
}

} // verus!
