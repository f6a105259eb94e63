//! What holds of the validator and of the engine on every input.

use vstd::prelude::*;
use vstd::seq_lib::{seq_to_set_is_finite, to_multiset_contains};
use vstd::set_lib::lemma_subset_equality;
use crate::handlers::columns::{
    after_update, column_update_refusal, law_column_update_keeps_density,
    lemma_column_update_keeps_distinct, next_free_position, target_board,
};
use crate::models::column::{BoardColumn, UpdateColumnRequest};
use crate::ordering::density::{
    lemma_legal_write_count, lemma_legal_write_is_dense, lemma_rank_strict, lemma_remove_keeps_distinct, lemma_remove_spares_others,
    lemma_renumber_spares_others, lemma_renumbered_is_dense, lemma_write_keeps_distinct,
    lemma_write_spares_others,
};
use crate::ordering::engine::{after_delete, after_reorder};
use crate::ordering::sorting::lemma_same_members;
use crate::ordering::store::{
    board_column_ids, board_size, column_index, dense_board, distinct_ids, lemma_column_index,
    highest_position, lemma_highest_position, lemma_rank_bound, renumbered,
    requested_position, strictly_precedes, touched_count, with_positions,
};
use crate::ordering::validator::{
    dense_permutation, first_violation, payload_ids, payload_positions, ColumnOrderUpdate,
    OrderViolation,
};

verus! {

/// The positions `0, 1, .., n - 1` in ascending order.
pub open spec fn first_positions(n: nat) -> Seq<i32> {
    Seq::new(n, |i: int| i as i32)
}

/// Two sequences without repetitions that have the same members hold the
/// same values as often.
pub proof fn lemma_same_set_same_multiset(a: Seq<i32>, b: Seq<i32>)
    requires
        a.no_duplicates(),
        b.no_duplicates(),
        forall|x: i32| a.contains(x) <==> b.contains(x),
    ensures
        a.to_multiset() == b.to_multiset(),
{
    a.lemma_multiset_has_no_duplicates();
    b.lemma_multiset_has_no_duplicates();
    assert forall|x: i32| a.to_multiset().count(x) == b.to_multiset().count(x) by {
        to_multiset_contains(a, x);
        to_multiset_contains(b, x);
    }
    assert(a.to_multiset() =~= b.to_multiset());
}

/// Any rearrangement of `0, 1, .., n - 1` is a dense permutation.
pub proof fn lemma_rearranged_is_dense(positions: Seq<i32>)
    requires
        positions.len() <= i32::MAX,
        positions.to_multiset() == first_positions(positions.len()).to_multiset(),
    ensures
        dense_permutation(positions),
{
    let base = first_positions(positions.len());
    assert(base.no_duplicates());
    base.lemma_multiset_has_no_duplicates();
    positions.lemma_multiset_has_no_duplicates_conv();
    lemma_same_members(positions, base);
    assert forall|i: int| 0 <= i < positions.len() implies 0 <= #[trigger] positions[i]
        && positions[i] < positions.len() by {
        assert(positions.contains(positions[i]));
        let k = choose|k: int| 0 <= k < base.len() && base[k] == positions[i];
    }
}

/// A dense permutation is a rearrangement of `0, 1, .., n - 1`.
pub proof fn lemma_dense_is_rearranged(positions: Seq<i32>)
    requires
        positions.len() <= i32::MAX,
        dense_permutation(positions),
    ensures
        positions.to_multiset() == first_positions(positions.len()).to_multiset(),
{
    let base = first_positions(positions.len());
    assert(base.no_duplicates());
    positions.unique_seq_to_set();
    base.unique_seq_to_set();
    seq_to_set_is_finite(positions);
    seq_to_set_is_finite(base);
    assert forall|x: i32| positions.to_set().contains(x) implies base.to_set().contains(x) by {
        let i = choose|i: int| 0 <= i < positions.len() && positions[i] == x;
        assert(0 <= positions[i] && positions[i] < positions.len());
        assert(base[x as int] == x);
    }
    lemma_subset_equality(positions.to_set(), base.to_set());
    assert forall|x: i32| positions.contains(x) <==> base.contains(x) by {
        assert(positions.to_set().contains(x) <==> base.to_set().contains(x));
    }
    lemma_same_set_same_multiset(positions, base);
}

/// Where the board's identifiers are distinct and the ordering names as
/// many, naming the same identifiers as often is naming the same set of
/// identifiers.
pub proof fn law_set_mismatch_compares_sets(existing: Seq<i32>, ids: Seq<i32>)
    requires
        existing.no_duplicates(),
        existing.len() == ids.len(),
    ensures
        existing.to_multiset() == ids.to_multiset() <==> existing.to_set() == ids.to_set(),
{
    if existing.to_multiset() == ids.to_multiset() {
        lemma_same_members(existing, ids);
        assert(existing.to_set() =~= ids.to_set());
    }
    if existing.to_set() == ids.to_set() {
        existing.unique_seq_to_set();
        ids.lemma_no_dup_set_cardinality();
        assert forall|x: i32| existing.contains(x) <==> ids.contains(x) by {
            assert(existing.to_set().contains(x) <==> ids.to_set().contains(x));
        }
        lemma_same_set_same_multiset(existing, ids);
    }
}

/// Permutation validity: for any set of distinct identifiers and any
/// rearrangement of `0, 1, .., n - 1` assigned to them, in any order of
/// submission, the validator accepts.
pub proof fn law_permutation_accepted(existing: Seq<i32>, columns: Seq<ColumnOrderUpdate>)
    requires
        existing.no_duplicates(),
        payload_ids(columns).no_duplicates(),
        forall|x: i32| existing.contains(x) <==> payload_ids(columns).contains(x),
        columns.len() <= i32::MAX,
        payload_positions(columns).to_multiset() == first_positions(columns.len()).to_multiset(),
    ensures
        first_violation(existing, columns).is_none(),
{
    lemma_same_set_same_multiset(existing, payload_ids(columns));
    lemma_same_members(existing, payload_ids(columns));
    lemma_rearranged_is_dense(payload_positions(columns));
}

/// An ordering that the validator accepts names the board's columns, each
/// once, and assigns them a dense permutation.
pub proof fn law_accepted_is_permutation(existing: Seq<i32>, columns: Seq<ColumnOrderUpdate>)
    requires
        first_violation(existing, columns).is_none(),
    ensures
        existing.to_multiset() == payload_ids(columns).to_multiset(),
        dense_permutation(payload_positions(columns)),
{
    if columns.len() == 0 {
        assert(existing =~= payload_ids(columns));
    }
}

/// A legal ordering in which one entry is given the position of another is
/// rejected for a duplicate position.
pub proof fn law_duplicate_position_rejected(
    existing: Seq<i32>,
    columns: Seq<ColumnOrderUpdate>,
    i: int,
    j: int,
)
    requires
        first_violation(existing, columns).is_none(),
        0 <= i < columns.len(),
        0 <= j < columns.len(),
        i != j,
    ensures
        first_violation(
            existing,
            columns.update(
                i,
                ColumnOrderUpdate { id: columns[i].id, position: columns[j].position },
            ),
        ) == Some(OrderViolation::DuplicatePosition),
{
    let changed = columns.update(
        i,
        ColumnOrderUpdate { id: columns[i].id, position: columns[j].position },
    );
    let positions = payload_positions(columns);
    let after = payload_positions(changed);
    assert(payload_ids(changed) =~= payload_ids(columns));
    assert forall|k: int| 0 <= k < after.len() implies after[k] >= 0 by {
        if k == i {
            assert(positions[j] >= 0);
        } else {
            assert(positions[k] >= 0);
        }
    }
    assert(after[i] == after[j]);
}

/// A legal ordering from which one entry is left out is rejected: for an
/// empty payload where nothing remains, for its count otherwise.
pub proof fn law_omission_rejected(existing: Seq<i32>, columns: Seq<ColumnOrderUpdate>, i: int)
    requires
        first_violation(existing, columns).is_none(),
        0 <= i < columns.len(),
    ensures
        first_violation(existing, columns.remove(i)) == Some(
            if columns.len() == 1 {
                OrderViolation::EmptyPayload
            } else {
                OrderViolation::CountMismatch
            },
        ),
{
    let changed = columns.remove(i);
    let positions = payload_positions(columns);
    let after = payload_positions(changed);
    assert forall|k: int| 0 <= k < after.len() implies after[k] >= 0 by {
        if k < i {
            assert(positions[k] >= 0);
        } else {
            assert(positions[k + 1] >= 0);
        }
    }
}

/// A legal ordering to which an entry is added is rejected: for a negative
/// position where the entry has one, for its count otherwise.
pub proof fn law_addition_rejected(
    existing: Seq<i32>,
    columns: Seq<ColumnOrderUpdate>,
    extra: ColumnOrderUpdate,
)
    requires
        first_violation(existing, columns).is_none(),
    ensures
        first_violation(existing, columns.push(extra)) == Some(
            if extra.position < 0 {
                OrderViolation::NonNegativeViolation
            } else {
                OrderViolation::CountMismatch
            },
        ),
{
    let changed = columns.push(extra);
    let positions = payload_positions(columns);
    let after = payload_positions(changed);
    if extra.position < 0 {
        assert(after[columns.len() as int] < 0);
    } else {
        assert forall|k: int| 0 <= k < after.len() implies after[k] >= 0 by {
            if k < columns.len() {
                assert(positions[k] >= 0);
            }
        }
        if columns.len() == 0 {
            assert(existing.len() == 0);
        }
    }
}

/// A legal ordering in which one identifier is replaced by one that the
/// board does not have is rejected for naming the wrong columns.
pub proof fn law_foreign_identifier_rejected(
    existing: Seq<i32>,
    columns: Seq<ColumnOrderUpdate>,
    i: int,
    foreign: i32,
)
    requires
        first_violation(existing, columns).is_none(),
        0 <= i < columns.len(),
        !existing.contains(foreign),
    ensures
        first_violation(
            existing,
            columns.update(i, ColumnOrderUpdate { id: foreign, position: columns[i].position }),
        ) == Some(OrderViolation::SetMismatch),
{
    let changed = columns.update(
        i,
        ColumnOrderUpdate { id: foreign, position: columns[i].position },
    );
    assert(payload_positions(changed) =~= payload_positions(columns));
    assert(payload_ids(changed)[i] == foreign);
    to_multiset_contains(existing, foreign);
    to_multiset_contains(payload_ids(changed), foreign);
}

/// A legal ordering in which one position is replaced by one at or beyond
/// the number of columns is rejected for its range.
pub proof fn law_gap_rejected(
    existing: Seq<i32>,
    columns: Seq<ColumnOrderUpdate>,
    i: int,
    beyond: i32,
)
    requires
        first_violation(existing, columns).is_none(),
        0 <= i < columns.len(),
        beyond >= columns.len(),
    ensures
        first_violation(
            existing,
            columns.update(i, ColumnOrderUpdate { id: columns[i].id, position: beyond }),
        ) == Some(OrderViolation::NonContiguousRange),
{
    let changed = columns.update(i, ColumnOrderUpdate { id: columns[i].id, position: beyond });
    let positions = payload_positions(columns);
    let after = payload_positions(changed);
    assert(payload_ids(changed) =~= payload_ids(columns));
    assert forall|k: int| 0 <= k < after.len() implies after[k] >= 0 by {
        if k != i {
            assert(positions[k] >= 0);
        }
    }
    assert forall|a: int, b: int|
        0 <= a < after.len() && 0 <= b < after.len() && a != b implies after[a] != after[b] by {
        if a == i {
            assert(positions[b] < positions.len());
        } else if b == i {
            assert(positions[a] < positions.len());
        } else {
            assert(positions[a] != positions[b]);
        }
    }
    assert(after[i] == beyond);
}

/// Tables that agree on the identifier and the board of every column list
/// the same identifiers for every board.
pub proof fn lemma_same_listing(a: Seq<BoardColumn>, b: Seq<BoardColumn>, board_id: i32)
    requires
        a.len() == b.len(),
        forall|i: int| 0 <= i < a.len() ==> a[i].id == b[i].id && a[i].board_id == b[i].board_id,
    ensures
        board_column_ids(a, board_id) == board_column_ids(b, board_id),
    decreases a.len(),
{
    if a.len() > 0 {
        lemma_same_listing(a.drop_last(), b.drop_last(), board_id);
    }
}

/// `a` and `b` hold the same columns at the same positions; only the times
/// of their last change may differ.
pub open spec fn same_placement(a: Seq<BoardColumn>, b: Seq<BoardColumn>) -> bool {
    &&& a.len() == b.len()
    &&& forall|i: int|
        0 <= i < a.len() ==> a[i] == (BoardColumn { updated_at: a[i].updated_at, ..b[i] })
}

/// Reorder idempotence: an ordering that was applied is accepted again,
/// and applying it again leaves every column where it is.
pub proof fn law_reorder_idempotent(
    boards: Seq<i32>,
    columns: Seq<BoardColumn>,
    board_id: i32,
    updates: Seq<ColumnOrderUpdate>,
    now: i64,
    again: i64,
)
    requires
        boards.contains(board_id),
        first_violation(board_column_ids(columns, board_id), updates).is_none(),
    ensures
        first_violation(
            board_column_ids(after_reorder(boards, columns, board_id, updates, now), board_id),
            updates,
        ).is_none(),
        same_placement(
            after_reorder(
                boards,
                after_reorder(boards, columns, board_id, updates, now),
                board_id,
                updates,
                again,
            ),
            after_reorder(boards, columns, board_id, updates, now),
        ),
{
    let once = with_positions(columns, board_id, updates, now);
    lemma_same_listing(once, columns, board_id);
}

/// Reorder idempotence: an ordering that asks for each column of the board
/// the position that it has is accepted whenever it is legal, and leaves
/// every column where it is.
pub proof fn law_current_order_kept(
    boards: Seq<i32>,
    columns: Seq<BoardColumn>,
    board_id: i32,
    updates: Seq<ColumnOrderUpdate>,
    now: i64,
)
    requires
        forall|i: int|
            0 <= i < columns.len() && columns[i].board_id == board_id ==> requested_position(
                updates,
                #[trigger] columns[i].id,
            ) == Some(columns[i].position),
    ensures
        same_placement(after_reorder(boards, columns, board_id, updates, now), columns),
{
    let after = after_reorder(boards, columns, board_id, updates, now);
    assert forall|i: int| 0 <= i < after.len() implies after[i] == (BoardColumn {
        updated_at: after[i].updated_at,
        ..columns[i]
    }) by {
        if columns[i].board_id == board_id {
            assert(requested_position(updates, columns[i].id) == Some(columns[i].position));
        }
    }
}

/// A write touches no more columns than the board has.
pub proof fn lemma_touched_within_board(
    columns: Seq<BoardColumn>,
    board_id: i32,
    updates: Seq<ColumnOrderUpdate>,
)
    ensures
        touched_count(columns, board_id, updates) <= board_size(columns, board_id),
    decreases columns.len(),
{
    if columns.len() > 0 {
        lemma_touched_within_board(columns.drop_last(), board_id, updates);
    }
}

/// No conflict without interference: while the board holds the columns
/// that the ordering was validated against, the write changes as many
/// columns as the ordering names.
pub proof fn law_no_conflict_without_interference(
    columns: Seq<BoardColumn>,
    board_id: i32,
    updates: Seq<ColumnOrderUpdate>,
)
    requires
        first_violation(board_column_ids(columns, board_id), updates).is_none(),
    ensures
        touched_count(columns, board_id, updates) == updates.len(),
{
    lemma_legal_write_count(columns, board_id, updates);
}

/// Interference is detected: where the board has lost a column since the
/// ordering was validated, so that it holds fewer columns than the
/// ordering names, the write changes fewer columns than the ordering
/// names.
pub proof fn law_lost_column_is_detected(
    later: Seq<BoardColumn>,
    board_id: i32,
    updates: Seq<ColumnOrderUpdate>,
)
    requires
        board_size(later, board_id) < updates.len(),
    ensures
        touched_count(later, board_id, updates) < updates.len(),
{
    lemma_touched_within_board(later, board_id, updates);
}

/// A column added at the end of its board, at the position that equals the
/// number of columns the board has, keeps the positions of every board
/// dense.
pub proof fn law_added_column_keeps_density(
    columns: Seq<BoardColumn>,
    added: BoardColumn,
    board: i32,
)
    requires
        dense_board(columns, board),
        added.board_id == board ==> added.position == board_size(columns, board),
    ensures
        dense_board(columns.push(added), board),
{
    let after = columns.push(added);
    assert(after.drop_last() =~= columns);
    assert forall|i: int| 0 <= i < after.len() && after[i].board_id == board implies 0
        <= #[trigger] after[i].position && after[i].position < board_size(after, board) by {
        if i < columns.len() {
            assert(after[i] == columns[i]);
            assert(0 <= columns[i].position);
        }
    }
    assert forall|i: int, j: int|
        0 <= i < after.len() && 0 <= j < after.len() && i != j && after[i].board_id == board
            && after[j].board_id == board implies #[trigger] after[i].position
        != #[trigger] after[j].position by {
        if i < columns.len() && j < columns.len() {
            assert(after[i] == columns[i]);
            assert(after[j] == columns[j]);
            assert(columns[i].position != columns[j].position);
        } else if i < columns.len() {
            assert(after[i] == columns[i]);
            assert(columns[i].position < board_size(columns, board));
        } else {
            assert(after[j] == columns[j]);
            assert(columns[j].position < board_size(columns, board));
        }
    }
}

/// A column created on a board at the position after the highest one on
/// it, or at zero where the board has no column, keeps the positions of
/// every board dense.
pub proof fn law_created_column_keeps_density(
    columns: Seq<BoardColumn>,
    added: BoardColumn,
    board: i32,
)
    requires
        columns.len() <= i32::MAX,
        dense_board(columns, board),
        Some(added.position) == next_free_position(highest_position(columns, added.board_id)),
    ensures
        dense_board(columns.push(added), board),
{
    if added.board_id == board {
        lemma_highest_of_dense(columns, board);
    }
    law_added_column_keeps_density(columns, added, board);
}

/// Renumbering keeps the order of a board: of two of its columns, the one
/// that came first, by position and then by identifier, comes first after.
pub proof fn law_renumber_keeps_order(
    columns: Seq<BoardColumn>,
    board_id: i32,
    now: i64,
    i: int,
    j: int,
)
    requires
        columns.len() <= i32::MAX,
        0 <= i < columns.len(),
        0 <= j < columns.len(),
        columns[i].board_id == board_id,
        columns[j].board_id == board_id,
        strictly_precedes(columns[i], columns[j]),
    ensures
        renumbered(columns, board_id, now)[i].position < renumbered(
            columns,
            board_id,
            now,
        )[j].position,
{
    lemma_rank_bound(columns, board_id, columns[i]);
    lemma_rank_bound(columns, board_id, columns[j]);
    lemma_rank_strict(columns, board_id, columns[j], i);
}

/// One request to the engine.
pub enum Request {
    /// Reorder the columns of `board_id` as `updates` asks, at `now`.
    Reorder { board_id: i32, updates: Seq<ColumnOrderUpdate>, now: i64 },
    /// Delete the column `id`, at `now`.
    Delete { id: i32, now: i64 },
    /// Change the column `id` as `request` asks, at `now`.
    Update { id: i32, request: UpdateColumnRequest, now: i64 },
}

/// The columns after the engine has served `request`, whether it applied
/// or refused it.
pub open spec fn after_request(
    boards: Seq<i32>,
    columns: Seq<BoardColumn>,
    request: Request,
) -> Seq<BoardColumn> {
    match request {
        Request::Reorder { board_id, updates, now } => after_reorder(
            boards,
            columns,
            board_id,
            updates,
            now,
        ),
        Request::Delete { id, now } => after_delete(columns, id, now),
        Request::Update { id, request, now } => after_update(boards, columns, id, request, now),
    }
}

/// The columns after the engine has served `requests` one after another.
pub open spec fn after_requests(
    boards: Seq<i32>,
    columns: Seq<BoardColumn>,
    requests: Seq<Request>,
) -> Seq<BoardColumn>
    decreases requests.len(),
{
    if requests.len() == 0 {
        columns
    } else {
        after_request(boards, after_requests(boards, columns, requests.drop_last()), requests.last())
    }
}

/// Serving one request keeps the identifiers distinct and the positions of
/// a board dense.
pub proof fn law_request_keeps_density(
    boards: Seq<i32>,
    columns: Seq<BoardColumn>,
    request: Request,
    board: i32,
)
    requires
        distinct_ids(columns),
        columns.len() <= i32::MAX,
        dense_board(columns, board),
    ensures
        distinct_ids(after_request(boards, columns, request)),
        after_request(boards, columns, request).len() <= columns.len(),
        dense_board(after_request(boards, columns, request), board),
{
    match request {
        Request::Reorder { board_id, updates, now } => {
            lemma_write_keeps_distinct(columns, board_id, updates, now);
            if boards.contains(board_id) && first_violation(
                board_column_ids(columns, board_id),
                updates,
            ).is_none() {
                if board == board_id {
                    lemma_legal_write_is_dense(columns, board_id, updates, now);
                } else {
                    lemma_write_spares_others(columns, board_id, updates, now, board);
                }
            }
        },
        Request::Delete { id, now } => {
            lemma_column_index(columns, id);
            if column_index(columns, id).is_some() {
                let k = column_index(columns, id).unwrap();
                let board_id = columns[k].board_id;
                lemma_remove_keeps_distinct(columns, k);
                lemma_renumbered_is_dense(columns.remove(k), board_id, now);
                if board != board_id {
                    lemma_remove_spares_others(columns, k, board);
                    lemma_renumber_spares_others(columns.remove(k), board_id, now, board);
                }
            }
        },
        Request::Update { id, request, now } => {
            lemma_column_index(columns, id);
            if column_update_refusal(boards, columns, id, request).is_none() {
                let place = column_index(columns, id).unwrap();
                lemma_column_update_keeps_distinct(columns, place, request, now);
                law_column_update_keeps_density(columns, place, request, now, board);
            }
        },
    }
}

/// Every column belongs to a board that exists.
pub open spec fn boards_exist(boards: Seq<i32>, columns: Seq<BoardColumn>) -> bool {
    forall|i: int| 0 <= i < columns.len() ==> boards.contains((#[trigger] columns[i]).board_id)
}

/// Serving one request leaves every column on a board that exists: a
/// reordering and a deletion move no column to another board, and a change
/// moves a column only to a board that exists.
pub proof fn law_request_keeps_boards(
    boards: Seq<i32>,
    columns: Seq<BoardColumn>,
    request: Request,
)
    requires
        boards_exist(boards, columns),
    ensures
        boards_exist(boards, after_request(boards, columns, request)),
{
    let after = after_request(boards, columns, request);
    match request {
        Request::Reorder { board_id, updates, now } => {
            assert forall|i: int| 0 <= i < after.len() implies boards.contains(
                (#[trigger] after[i]).board_id,
            ) by {
                assert(after[i].board_id == columns[i].board_id);
            }
        },
        Request::Delete { id, now } => {
            lemma_column_index(columns, id);
            if column_index(columns, id).is_some() {
                let k = column_index(columns, id).unwrap();
                let remaining = columns.remove(k);
                assert forall|i: int| 0 <= i < after.len() implies boards.contains(
                    (#[trigger] after[i]).board_id,
                ) by {
                    let from = if i < k {
                        i
                    } else {
                        i + 1
                    };
                    assert(after[i].board_id == remaining[i].board_id);
                    assert(remaining[i] == columns[from]);
                }
            }
        },
        Request::Update { id, request, now } => {
            lemma_column_index(columns, id);
            if column_update_refusal(boards, columns, id, request).is_none() {
                let k = column_index(columns, id).unwrap();
                assert forall|i: int| 0 <= i < after.len() implies boards.contains(
                    (#[trigger] after[i]).board_id,
                ) by {
                    if i != k {
                        assert(after[i].board_id == columns[i].board_id);
                    } else {
                        assert(after[i].board_id == target_board(columns[k], request));
                    }
                }
            }
        },
    }
}

/// Invariant preservation: after any sequence of requests to reorder a
/// board, to delete a column or to change one, each applied or refused, the positions of a board that were `0, 1, .., n - 1` for its
/// `n` columns are `0, 1, .., m - 1` for the `m` columns it has then.
pub proof fn law_density_preserved(
    boards: Seq<i32>,
    columns: Seq<BoardColumn>,
    requests: Seq<Request>,
    board: i32,
)
    requires
        distinct_ids(columns),
        columns.len() <= i32::MAX,
        dense_board(columns, board),
    ensures
        distinct_ids(after_requests(boards, columns, requests)),
        after_requests(boards, columns, requests).len() <= columns.len(),
        dense_board(after_requests(boards, columns, requests), board),
    decreases requests.len(),
{
    if requests.len() > 0 {
        law_density_preserved(boards, columns, requests.drop_last(), board);
        law_request_keeps_density(
            boards,
            after_requests(boards, columns, requests.drop_last()),
            requests.last(),
            board,
        );
    }
}

/// The positions of the columns of `board_id`, in table order.
pub open spec fn board_positions(columns: Seq<BoardColumn>, board_id: i32) -> Seq<i32>
    decreases columns.len(),
{
    if columns.len() == 0 {
        Seq::empty()
    } else if columns.last().board_id == board_id {
        board_positions(columns.drop_last(), board_id).push(columns.last().position)
    } else {
        board_positions(columns.drop_last(), board_id)
    }
}

/// Each position listed for a board is that of one of its columns, and
/// positions listed at different places belong to different columns.
pub proof fn lemma_position_source(columns: Seq<BoardColumn>, board_id: i32, k: int) -> (i: int)
    requires
        0 <= k < board_positions(columns, board_id).len(),
    ensures
        0 <= i < columns.len(),
        columns[i].board_id == board_id,
        columns[i].position == board_positions(columns, board_id)[k],
        board_positions(columns.take(i), board_id).len() == k,
    decreases columns.len(),
{
    let front = columns.drop_last();
    let listed = board_positions(front, board_id);
    if columns.last().board_id == board_id && k == listed.len() {
        assert(columns.take(columns.len() - 1) =~= front);
        columns.len() - 1
    } else {
        let i = lemma_position_source(front, board_id, k);
        assert(front.take(i) =~= columns.take(i));
        i
    }
}

/// The positions listed for a board are as many as the board has columns.
pub proof fn lemma_positions_count(columns: Seq<BoardColumn>, board_id: i32)
    ensures
        board_positions(columns, board_id).len() == board_size(columns, board_id),
    decreases columns.len(),
{
    if columns.len() > 0 {
        lemma_positions_count(columns.drop_last(), board_id);
    }
}

/// A board has no more columns than the table holds.
pub proof fn lemma_size_within_table(columns: Seq<BoardColumn>, board_id: i32)
    ensures
        board_size(columns, board_id) <= columns.len(),
    decreases columns.len(),
{
    if columns.len() > 0 {
        lemma_size_within_table(columns.drop_last(), board_id);
    }
}

/// The invariant of the store, as it is usually worded: the positions of a
/// board with dense positions, taken together, are `0, 1, .., n - 1` for
/// its `n` columns, with no gap and no position twice.
pub proof fn law_dense_positions(columns: Seq<BoardColumn>, board_id: i32)
    requires
        columns.len() <= i32::MAX,
        dense_board(columns, board_id),
    ensures
        board_positions(columns, board_id).len() == board_size(columns, board_id),
        board_positions(columns, board_id).to_multiset() == first_positions(
            board_size(columns, board_id),
        ).to_multiset(),
{
    let listed = board_positions(columns, board_id);
    lemma_positions_count(columns, board_id);
    lemma_size_within_table(columns, board_id);
    assert forall|k: int| 0 <= k < listed.len() implies 0 <= #[trigger] listed[k] && listed[k]
        < listed.len() by {
        let i = lemma_position_source(columns, board_id, k);
        assert(0 <= columns[i].position);
    }
    assert forall|a: int, b: int|
        0 <= a < listed.len() && 0 <= b < listed.len() && a != b implies listed[a]
        != listed[b] by {
        let i = lemma_position_source(columns, board_id, a);
        let j = lemma_position_source(columns, board_id, b);
        assert(i != j);
        assert(columns[i].position != columns[j].position);
    }
    lemma_dense_is_rearranged(listed);
}

/// On a board with dense positions the highest position is one less than
/// the number of its columns: the next free position is that number.
pub proof fn lemma_highest_of_dense(columns: Seq<BoardColumn>, board_id: i32)
    requires
        columns.len() <= i32::MAX,
        dense_board(columns, board_id),
    ensures
        match highest_position(columns, board_id) {
            Some(top) => top + 1 == board_size(columns, board_id),
            None => board_size(columns, board_id) == 0,
        },
{
    let size = board_size(columns, board_id);
    let listed = board_positions(columns, board_id);
    lemma_highest_position(columns, board_id);
    law_dense_positions(columns, board_id);
    lemma_size_within_table(columns, board_id);
    if size > 0 {
        let base = first_positions(size);
        lemma_same_members(listed, base);
        assert(base[size - 1] == size - 1);
        assert(base.contains((size - 1) as i32));
        let k = choose|k: int| 0 <= k < listed.len() && listed[k] == (size - 1) as i32;
        let i = lemma_position_source(columns, board_id, k);
        assert(columns[i].position == size - 1);
        let top = highest_position(columns, board_id).unwrap();
        let at = choose|at: int|
            0 <= at < columns.len() && columns[at].board_id == board_id
                && #[trigger] columns[at].position == top;
        assert(columns[at].position < size);
    } else {
        if highest_position(columns, board_id).is_some() {
            let top = highest_position(columns, board_id).unwrap();
            let at = choose|at: int|
                0 <= at < columns.len() && columns[at].board_id == board_id
                    && #[trigger] columns[at].position == top;
            assert(columns[at].position < size);
        }
    }
}

} // verus!
