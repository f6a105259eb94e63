//! Why the engine keeps the positions of every board dense.

use vstd::prelude::*;
use vstd::seq_lib::{to_multiset_contains, to_multiset_len};
use crate::models::column::BoardColumn;
use crate::ordering::sorting::{
    lemma_same_members, lemma_strict_from_first, lemma_strict_to_last, strictly_ascending,
};
use crate::ordering::store::{
    board_columns, board_column_ids, in_board_order, precedes, board_size, dense_board, distinct_ids, lemma_rank_bound, rank_in_board,
    renumbered, requested_position, strictly_precedes, touched_count, with_positions,
};
use crate::ordering::validator::{
    first_violation, payload_ids, payload_positions, ColumnOrderUpdate,
};

verus! {

/// The size of a board is the number of its column identifiers.
pub proof fn lemma_size_is_id_count(columns: Seq<BoardColumn>, board_id: i32)
    ensures
        board_size(columns, board_id) == board_column_ids(columns, board_id).len(),
    decreases columns.len(),
{
    if columns.len() > 0 {
        lemma_size_is_id_count(columns.drop_last(), board_id);
    }
}

/// A board has as many columns as it has column identifiers.
pub proof fn lemma_columns_match_ids(columns: Seq<BoardColumn>, board_id: i32)
    ensures
        board_columns(columns, board_id).len() == board_column_ids(columns, board_id).len(),
    decreases columns.len(),
{
    if columns.len() > 0 {
        lemma_columns_match_ids(columns.drop_last(), board_id);
    }
}

/// The identifier of a column of a board is among the board's identifiers.
pub proof fn lemma_id_listed(columns: Seq<BoardColumn>, board_id: i32, i: int)
    requires
        0 <= i < columns.len(),
        columns[i].board_id == board_id,
    ensures
        board_column_ids(columns, board_id).contains(columns[i].id),
    decreases columns.len(),
{
    let front = columns.drop_last();
    let ids = board_column_ids(columns, board_id);
    if i == columns.len() - 1 {
        assert(ids[ids.len() - 1] == columns[i].id);
    } else {
        lemma_id_listed(front, board_id, i);
        let front_ids = board_column_ids(front, board_id);
        let k = choose|k: int| 0 <= k < front_ids.len() && front_ids[k] == columns[i].id;
        assert(ids[k] == columns[i].id);
    }
}

/// An ordering asks a position for exactly the identifiers it names, and
/// the position is that of an entry that names the identifier.
pub proof fn lemma_requested(updates: Seq<ColumnOrderUpdate>, id: i32)
    ensures
        requested_position(updates, id).is_some() <==> payload_ids(updates).contains(id),
        requested_position(updates, id).is_some() ==> exists|k: int|
            0 <= k < updates.len() && #[trigger] updates[k].id == id && updates[k].position
                == requested_position(updates, id).unwrap(),
    decreases updates.len(),
{
    let ids = payload_ids(updates);
    if updates.len() > 0 {
        let rest = updates.drop_first();
        lemma_requested(rest, id);
        if updates[0].id == id {
            assert(ids[0] == id);
        } else {
            if requested_position(rest, id).is_some() {
                let k = choose|k: int|
                    0 <= k < rest.len() && #[trigger] rest[k].id == id && rest[k].position
                        == requested_position(rest, id).unwrap();
                assert(updates[k + 1].id == id);
                assert(payload_ids(rest)[k] == id);
                assert(ids[k + 1] == id);
            }
            if ids.contains(id) {
                let k = choose|k: int| 0 <= k < ids.len() && ids[k] == id;
                assert(payload_ids(rest)[k - 1] == id);
            }
        }
    }
}

/// Where every column of the board is named by the ordering, the write
/// touches as many columns as the board has.
pub proof fn lemma_touches_whole_board(
    columns: Seq<BoardColumn>,
    board_id: i32,
    updates: Seq<ColumnOrderUpdate>,
)
    requires
        forall|i: int|
            0 <= i < columns.len() && columns[i].board_id == board_id ==> requested_position(
                updates,
                #[trigger] columns[i].id,
            ).is_some(),
    ensures
        touched_count(columns, board_id, updates) == board_size(columns, board_id),
    decreases columns.len(),
{
    if columns.len() > 0 {
        let front = columns.drop_last();
        assert forall|i: int| 0 <= i < front.len() && front[i].board_id == board_id implies requested_position(
            updates,
            #[trigger] front[i].id,
        ).is_some() by {
            assert(front[i] == columns[i]);
        }
        lemma_touches_whole_board(front, board_id, updates);
        let last = columns.len() - 1;
        assert(columns.last() == columns[last]);
    }
}

/// A legal reordering names every column of the board, so its write
/// changes exactly as many columns as it has entries.
pub proof fn lemma_legal_write_count(
    columns: Seq<BoardColumn>,
    board_id: i32,
    updates: Seq<ColumnOrderUpdate>,
)
    requires
        first_violation(board_column_ids(columns, board_id), updates).is_none(),
    ensures
        touched_count(columns, board_id, updates) == updates.len(),
        board_size(columns, board_id) == updates.len(),
{
    let existing = board_column_ids(columns, board_id);
    lemma_size_is_id_count(columns, board_id);
    if updates.len() > 0 {
        lemma_same_members(existing, payload_ids(updates));
    }
    assert forall|i: int|
        0 <= i < columns.len() && columns[i].board_id == board_id implies requested_position(
        updates,
        #[trigger] columns[i].id,
    ).is_some() by {
        lemma_id_listed(columns, board_id, i);
        lemma_requested(updates, columns[i].id);
    }
    lemma_touches_whole_board(columns, board_id, updates);
}

/// A write keeps the board and the identifier of every column.
pub proof fn lemma_write_keeps_boards(
    columns: Seq<BoardColumn>,
    board_id: i32,
    updates: Seq<ColumnOrderUpdate>,
    now: i64,
    other: i32,
)
    ensures
        board_size(with_positions(columns, board_id, updates, now), other) == board_size(
            columns,
            other,
        ),
    decreases columns.len(),
{
    let after = with_positions(columns, board_id, updates, now);
    if columns.len() > 0 {
        lemma_write_keeps_boards(columns.drop_last(), board_id, updates, now, other);
        assert(after.drop_last() =~= with_positions(columns.drop_last(), board_id, updates, now));
    }
}

/// After the write of a legal reordering, the positions of the board are
/// dense.
pub proof fn lemma_legal_write_is_dense(
    columns: Seq<BoardColumn>,
    board_id: i32,
    updates: Seq<ColumnOrderUpdate>,
    now: i64,
)
    requires
        distinct_ids(columns),
        first_violation(board_column_ids(columns, board_id), updates).is_none(),
    ensures
        dense_board(with_positions(columns, board_id, updates, now), board_id),
{
    let after = with_positions(columns, board_id, updates, now);
    let positions = payload_positions(updates);
    lemma_legal_write_count(columns, board_id, updates);
    lemma_write_keeps_boards(columns, board_id, updates, now, board_id);
    if updates.len() > 0 {
        lemma_same_members(board_column_ids(columns, board_id), payload_ids(updates));
    }
    assert forall|i: int| 0 <= i < after.len() && after[i].board_id == board_id implies 0
        <= #[trigger] after[i].position && after[i].position < board_size(after, board_id) by {
        lemma_id_listed(columns, board_id, i);
        lemma_requested(updates, columns[i].id);
        let k = choose|k: int|
            0 <= k < updates.len() && #[trigger] updates[k].id == columns[i].id
                && updates[k].position == requested_position(updates, columns[i].id).unwrap();
        assert(positions[k] == after[i].position);
    }
    assert forall|i: int, j: int|
        0 <= i < after.len() && 0 <= j < after.len() && i != j && after[i].board_id == board_id
            && after[j].board_id == board_id implies #[trigger] after[i].position
        != #[trigger] after[j].position by {
        lemma_id_listed(columns, board_id, i);
        lemma_id_listed(columns, board_id, j);
        lemma_requested(updates, columns[i].id);
        lemma_requested(updates, columns[j].id);
        let ki = choose|k: int|
            0 <= k < updates.len() && #[trigger] updates[k].id == columns[i].id
                && updates[k].position == requested_position(updates, columns[i].id).unwrap();
        let kj = choose|k: int|
            0 <= k < updates.len() && #[trigger] updates[k].id == columns[j].id
                && updates[k].position == requested_position(updates, columns[j].id).unwrap();
        assert(positions[ki] == after[i].position);
        assert(positions[kj] == after[j].position);
        assert(ki != kj);
    }
}

/// A write leaves the positions of every other board as they were.
pub proof fn lemma_write_spares_others(
    columns: Seq<BoardColumn>,
    board_id: i32,
    updates: Seq<ColumnOrderUpdate>,
    now: i64,
    other: i32,
)
    requires
        other != board_id,
        dense_board(columns, other),
    ensures
        dense_board(with_positions(columns, board_id, updates, now), other),
{
    let after = with_positions(columns, board_id, updates, now);
    lemma_write_keeps_boards(columns, board_id, updates, now, other);
    assert forall|i: int| 0 <= i < after.len() && after[i].board_id == other implies 0
        <= #[trigger] after[i].position && after[i].position < board_size(after, other) by {
        assert(after[i] == columns[i]);
        assert(0 <= columns[i].position);
    }
    assert forall|i: int, j: int|
        0 <= i < after.len() && 0 <= j < after.len() && i != j && after[i].board_id == other
            && after[j].board_id == other implies #[trigger] after[i].position
        != #[trigger] after[j].position by {
        assert(after[i] == columns[i]);
        assert(after[j] == columns[j]);
        assert(columns[i].position != columns[j].position);
    }
}

/// A write keeps the identifiers distinct.
pub proof fn lemma_write_keeps_distinct(
    columns: Seq<BoardColumn>,
    board_id: i32,
    updates: Seq<ColumnOrderUpdate>,
    now: i64,
)
    requires
        distinct_ids(columns),
    ensures
        distinct_ids(with_positions(columns, board_id, updates, now)),
{
    let after = with_positions(columns, board_id, updates, now);
    assert forall|i: int, j: int|
        0 <= i < after.len() && 0 <= j < after.len() && i != j implies after[i].id
        != after[j].id by {
        assert(after[i].id == columns[i].id);
        assert(after[j].id == columns[j].id);
    }
}

/// A rank never exceeds the number of columns of the board.
pub proof fn lemma_rank_within_size(columns: Seq<BoardColumn>, board_id: i32, column: BoardColumn)
    ensures
        rank_in_board(columns, board_id, column) <= board_size(columns, board_id),
    decreases columns.len(),
{
    if columns.len() > 0 {
        lemma_rank_within_size(columns.drop_last(), board_id, column);
    }
}

/// Where the board holds a column that does not come strictly before
/// `column`, the rank of `column` is below the number of its columns.
pub proof fn lemma_rank_below_size(
    columns: Seq<BoardColumn>,
    board_id: i32,
    column: BoardColumn,
    i: int,
)
    requires
        0 <= i < columns.len(),
        columns[i].board_id == board_id,
        !strictly_precedes(columns[i], column),
    ensures
        rank_in_board(columns, board_id, column) < board_size(columns, board_id),
    decreases columns.len(),
{
    let front = columns.drop_last();
    if i == columns.len() - 1 {
        lemma_rank_within_size(front, board_id, column);
    } else {
        lemma_rank_below_size(front, board_id, column, i);
    }
}

/// A column that comes before another has no higher rank.
pub proof fn lemma_rank_monotone(
    columns: Seq<BoardColumn>,
    board_id: i32,
    first: BoardColumn,
    second: BoardColumn,
)
    requires
        strictly_precedes(first, second),
    ensures
        rank_in_board(columns, board_id, first) <= rank_in_board(columns, board_id, second),
    decreases columns.len(),
{
    if columns.len() > 0 {
        lemma_rank_monotone(columns.drop_last(), board_id, first, second);
    }
}

/// A column of the board that comes strictly before another column has a
/// lower rank.
pub proof fn lemma_rank_strict(
    columns: Seq<BoardColumn>,
    board_id: i32,
    second: BoardColumn,
    i: int,
)
    requires
        0 <= i < columns.len(),
        columns[i].board_id == board_id,
        strictly_precedes(columns[i], second),
    ensures
        rank_in_board(columns, board_id, columns[i]) < rank_in_board(columns, board_id, second),
    decreases columns.len(),
{
    let front = columns.drop_last();
    if i == columns.len() - 1 {
        lemma_rank_monotone(front, board_id, columns[i], second);
    } else {
        lemma_rank_strict(front, board_id, second, i);
    }
}

/// Renumbering keeps the board of every column.
pub proof fn lemma_renumber_keeps_boards(
    columns: Seq<BoardColumn>,
    board_id: i32,
    now: i64,
    other: i32,
)
    ensures
        board_size(renumbered(columns, board_id, now), other) == board_size(columns, other),
{
    lemma_same_boards_same_size(columns, renumbered(columns, board_id, now), other);
}

/// Tables that agree on the board of every column agree on the size of
/// every board.
pub proof fn lemma_same_boards_same_size(a: Seq<BoardColumn>, b: Seq<BoardColumn>, other: i32)
    requires
        a.len() == b.len(),
        forall|i: int| 0 <= i < a.len() ==> a[i].board_id == b[i].board_id,
    ensures
        board_size(a, other) == board_size(b, other),
    decreases a.len(),
{
    if a.len() > 0 {
        lemma_same_boards_same_size(a.drop_last(), b.drop_last(), other);
    }
}

/// After renumbering, the positions of the board are dense.
pub proof fn lemma_renumbered_is_dense(columns: Seq<BoardColumn>, board_id: i32, now: i64)
    requires
        distinct_ids(columns),
        columns.len() <= i32::MAX,
    ensures
        dense_board(renumbered(columns, board_id, now), board_id),
        distinct_ids(renumbered(columns, board_id, now)),
{
    let after = renumbered(columns, board_id, now);
    lemma_renumber_keeps_boards(columns, board_id, now, board_id);
    assert forall|i: int| 0 <= i < after.len() && after[i].board_id == board_id implies 0
        <= #[trigger] after[i].position && after[i].position < board_size(after, board_id) by {
        lemma_rank_bound(columns, board_id, columns[i]);
        lemma_rank_below_size(columns, board_id, columns[i], i);
    }
    assert forall|i: int, j: int|
        0 <= i < after.len() && 0 <= j < after.len() && i != j && after[i].board_id == board_id
            && after[j].board_id == board_id implies #[trigger] after[i].position
        != #[trigger] after[j].position by {
        lemma_rank_bound(columns, board_id, columns[i]);
        lemma_rank_bound(columns, board_id, columns[j]);
        assert(columns[i].id != columns[j].id);
        if strictly_precedes(columns[i], columns[j]) {
            lemma_rank_strict(columns, board_id, columns[j], i);
        } else {
            lemma_rank_strict(columns, board_id, columns[i], j);
        }
    }
    assert forall|i: int, j: int|
        0 <= i < after.len() && 0 <= j < after.len() && i != j implies after[i].id
        != after[j].id by {
        assert(after[i].id == columns[i].id);
        assert(after[j].id == columns[j].id);
    }
}

/// Renumbering a board leaves the positions of every other board as they
/// were.
pub proof fn lemma_renumber_spares_others(
    columns: Seq<BoardColumn>,
    board_id: i32,
    now: i64,
    other: i32,
)
    requires
        other != board_id,
        dense_board(columns, other),
    ensures
        dense_board(renumbered(columns, board_id, now), other),
{
    let after = renumbered(columns, board_id, now);
    lemma_renumber_keeps_boards(columns, board_id, now, other);
    assert forall|i: int| 0 <= i < after.len() && after[i].board_id == other implies 0
        <= #[trigger] after[i].position && after[i].position < board_size(after, other) by {
        assert(after[i] == columns[i]);
        assert(0 <= columns[i].position);
    }
    assert forall|i: int, j: int|
        0 <= i < after.len() && 0 <= j < after.len() && i != j && after[i].board_id == other
            && after[j].board_id == other implies #[trigger] after[i].position
        != #[trigger] after[j].position by {
        assert(after[i] == columns[i]);
        assert(after[j] == columns[j]);
        assert(columns[i].position != columns[j].position);
    }
}

/// Taking a column out of the table takes one from the size of its board
/// and nothing from any other.
pub proof fn lemma_remove_size(columns: Seq<BoardColumn>, k: int, other: i32)
    requires
        0 <= k < columns.len(),
    ensures
        board_size(columns.remove(k), other) + (if columns[k].board_id == other {
            1nat
        } else {
            0nat
        }) == board_size(columns, other),
    decreases columns.len(),
{
    let front = columns.drop_last();
    if k == columns.len() - 1 {
        assert(columns.remove(k) =~= front);
    } else {
        lemma_remove_size(front, k, other);
        assert(columns.remove(k).drop_last() =~= front.remove(k));
        assert(columns.remove(k).last() == columns.last());
    }
}

/// Taking a column out of the table leaves the positions of every other
/// board dense, and the identifiers distinct.
pub proof fn lemma_remove_spares_others(columns: Seq<BoardColumn>, k: int, other: i32)
    requires
        0 <= k < columns.len(),
        other != columns[k].board_id,
        dense_board(columns, other),
    ensures
        dense_board(columns.remove(k), other),
{
    let after = columns.remove(k);
    lemma_remove_size(columns, k, other);
    assert forall|i: int| 0 <= i < after.len() && after[i].board_id == other implies 0
        <= #[trigger] after[i].position && after[i].position < board_size(after, other) by {
        let from = if i < k {
            i
        } else {
            i + 1
        };
        assert(after[i] == columns[from]);
        assert(0 <= columns[from].position);
    }
    assert forall|i: int, j: int|
        0 <= i < after.len() && 0 <= j < after.len() && i != j && after[i].board_id == other
            && after[j].board_id == other implies #[trigger] after[i].position
        != #[trigger] after[j].position by {
        let from_i = if i < k {
            i
        } else {
            i + 1
        };
        let from_j = if j < k {
            j
        } else {
            j + 1
        };
        assert(after[i] == columns[from_i]);
        assert(after[j] == columns[from_j]);
        assert(columns[from_i].position != columns[from_j].position);
    }
}

/// Taking a column out of the table keeps the identifiers distinct.
pub proof fn lemma_remove_keeps_distinct(columns: Seq<BoardColumn>, k: int)
    requires
        0 <= k < columns.len(),
        distinct_ids(columns),
    ensures
        distinct_ids(columns.remove(k)),
        forall|i: int| 0 <= i < columns.remove(k).len() ==> columns.remove(k)[i].id != columns[k].id,
{
    let after = columns.remove(k);
    assert forall|i: int, j: int|
        0 <= i < after.len() && 0 <= j < after.len() && i != j implies after[i].id
        != after[j].id by {
        let from_i = if i < k {
            i
        } else {
            i + 1
        };
        let from_j = if j < k {
            j
        } else {
            j + 1
        };
        assert(after[i] == columns[from_i]);
        assert(after[j] == columns[from_j]);
    }
    assert forall|i: int| 0 <= i < after.len() implies after[i].id != columns[k].id by {
        let from = if i < k {
            i
        } else {
            i + 1
        };
        assert(after[i] == columns[from]);
    }
}

/// Each column listed for a board is a column of the table that belongs
/// to the board, and columns listed at different places stand at different
/// places of the table.
pub proof fn lemma_column_source(columns: Seq<BoardColumn>, board_id: i32, k: int) -> (i: int)
    requires
        0 <= k < board_columns(columns, board_id).len(),
    ensures
        0 <= i < columns.len(),
        columns[i].board_id == board_id,
        columns[i] == board_columns(columns, board_id)[k],
        board_columns(columns.take(i), board_id).len() == k,
    decreases columns.len(),
{
    let front = columns.drop_last();
    let listed = board_columns(front, board_id);
    if columns.last().board_id == board_id && k == listed.len() {
        assert(columns.take(columns.len() - 1) =~= front);
        columns.len() - 1
    } else {
        let i = lemma_column_source(front, board_id, k);
        assert(front.take(i) =~= columns.take(i));
        i
    }
}

/// Read in the order of the board, the columns of a board with dense
/// positions stand each at its position: the first at 0, the next at 1,
/// and so on.
pub proof fn lemma_ordered_positions(
    columns: Seq<BoardColumn>,
    board_id: i32,
    ordered: Seq<BoardColumn>,
)
    requires
        distinct_ids(columns),
        dense_board(columns, board_id),
        in_board_order(ordered),
        ordered.to_multiset() == board_columns(columns, board_id).to_multiset(),
    ensures
        ordered.len() == board_size(columns, board_id),
        forall|k: int| 0 <= k < ordered.len() ==> (#[trigger] ordered[k]).position == k,
        forall|k: int| 0 <= k < ordered.len() ==> (#[trigger] ordered[k]).board_id == board_id,
{
    let listed = board_columns(columns, board_id);
    lemma_columns_match_ids(columns, board_id);
    lemma_size_is_id_count(columns, board_id);
    to_multiset_len(ordered);
    to_multiset_len(listed);
    let n = ordered.len();
    // Where each column that was read stands in the table.
    let place = |k: int|
        choose|i: int|
            0 <= i < columns.len() && columns[i].board_id == board_id && columns[i] == ordered[k];
    assert forall|k: int| 0 <= k < n implies 0 <= place(k) < columns.len() && columns[place(
        k,
    )].board_id == board_id && columns[place(k)] == #[trigger] ordered[k] by {
        assert(ordered.contains(ordered[k]));
        to_multiset_contains(ordered, ordered[k]);
        to_multiset_contains(listed, ordered[k]);
        let at = choose|at: int| 0 <= at < listed.len() && listed[at] == ordered[k];
        let i = lemma_column_source(columns, board_id, at);
    }
    let positions = Seq::new(n, |k: int| ordered[k].position);
    assert forall|a: int, b: int| 0 <= a < b < n implies positions[a] < positions[b] by {
        assert(columns[place(a)] == ordered[a]);
        assert(columns[place(b)] == ordered[b]);
        if ordered[a].position == ordered[b].position {
            if place(a) == place(b) {
                // One column of the table, read twice: the table would
                // list it twice for the board.
                let row = ordered[a];
                assert(listed.no_duplicates()) by {
                    assert forall|x: int, y: int|
                        0 <= x < listed.len() && 0 <= y < listed.len() && x != y implies listed[x]
                        != listed[y] by {
                        let ix = lemma_column_source(columns, board_id, x);
                        let iy = lemma_column_source(columns, board_id, y);
                        assert(ix != iy);
                        assert(columns[ix].id != columns[iy].id);
                    }
                }
                listed.lemma_multiset_has_no_duplicates();
                ordered.lemma_multiset_has_no_duplicates_conv();
                assert(ordered[a] != ordered[b]);
            } else {
                assert(columns[place(a)].position != columns[place(b)].position);
            }
        }
        assert(precedes(ordered[a], ordered[b]));
    }
    assert(strictly_ascending(positions));
    assert forall|k: int| 0 <= k < n implies (#[trigger] ordered[k]).position == k
        && ordered[k].board_id == board_id by {
        assert(columns[place(0)] == ordered[0]);
        assert(columns[place(n - 1)] == ordered[n - 1]);
        assert(columns[place(k)] == ordered[k]);
        assert(0 <= columns[place(0)].position);
        assert(columns[place(n - 1)].position < n);
        lemma_strict_from_first(positions, k);
        lemma_strict_to_last(positions, k);
        assert(positions[k] == ordered[k].position);
    }
}

/// Putting `row` in the place of a column takes one from the size of the
/// board the column was on and adds one to the size of the board of `row`.
pub proof fn lemma_update_size(columns: Seq<BoardColumn>, k: int, row: BoardColumn, other: i32)
    requires
        0 <= k < columns.len(),
    ensures
        board_size(columns.update(k, row), other) + (if columns[k].board_id == other {
            1nat
        } else {
            0nat
        }) == board_size(columns, other) + (if row.board_id == other {
            1nat
        } else {
            0nat
        }),
    decreases columns.len(),
{
    let front = columns.drop_last();
    let after = columns.update(k, row);
    if k == columns.len() - 1 {
        assert(after.drop_last() =~= front);
    } else {
        lemma_update_size(front, k, row, other);
        assert(after.drop_last() =~= front.update(k, row));
    }
}

/// A table that agrees with one of dense positions on the board and the
/// position of every column has dense positions too.
pub proof fn lemma_same_places(a: Seq<BoardColumn>, b: Seq<BoardColumn>, other: i32)
    requires
        a.len() == b.len(),
        forall|i: int|
            0 <= i < a.len() ==> a[i].board_id == b[i].board_id && a[i].position == b[i].position,
        dense_board(a, other),
    ensures
        dense_board(b, other),
{
    lemma_same_boards_same_size(a, b, other);
    assert forall|i: int| 0 <= i < b.len() && b[i].board_id == other implies 0
        <= #[trigger] b[i].position && b[i].position < board_size(b, other) by {
        assert(0 <= a[i].position);
    }
    assert forall|i: int, j: int|
        0 <= i < b.len() && 0 <= j < b.len() && i != j && b[i].board_id == other && b[j].board_id
            == other implies #[trigger] b[i].position != #[trigger] b[j].position by {
        assert(a[i].position != a[j].position);
    }
}

/// A column moved to the end of another board, to the position that
/// equals the number of columns that board has, leaves the positions dense
/// on every board but the one it left.
pub proof fn lemma_move_keeps_density(
    columns: Seq<BoardColumn>,
    k: int,
    row: BoardColumn,
    other: i32,
)
    requires
        0 <= k < columns.len(),
        row.board_id != columns[k].board_id,
        other == row.board_id ==> row.position == board_size(columns, other),
        other != columns[k].board_id,
        dense_board(columns, other),
    ensures
        dense_board(columns.update(k, row), other),
{
    let after = columns.update(k, row);
    lemma_update_size(columns, k, row, other);
    assert forall|i: int| 0 <= i < after.len() && after[i].board_id == other implies 0
        <= #[trigger] after[i].position && after[i].position < board_size(after, other) by {
        if i != k {
            assert(after[i] == columns[i]);
            assert(0 <= columns[i].position);
        }
    }
    assert forall|i: int, j: int|
        0 <= i < after.len() && 0 <= j < after.len() && i != j && after[i].board_id == other
            && after[j].board_id == other implies #[trigger] after[i].position
        != #[trigger] after[j].position by {
        if i != k && j != k {
            assert(after[i] == columns[i]);
            assert(after[j] == columns[j]);
            assert(columns[i].position != columns[j].position);
        } else if i == k {
            assert(after[j] == columns[j]);
            assert(columns[j].position < board_size(columns, other));
        } else {
            assert(after[i] == columns[i]);
            assert(columns[i].position < board_size(columns, other));
        }
    }
}

/// Putting a row with the same identifier in the place of a column keeps
/// the identifiers distinct.
pub proof fn lemma_update_keeps_distinct(columns: Seq<BoardColumn>, k: int, row: BoardColumn)
    requires
        0 <= k < columns.len(),
        row.id == columns[k].id,
        distinct_ids(columns),
    ensures
        distinct_ids(columns.update(k, row)),
{
    let after = columns.update(k, row);
    assert forall|i: int, j: int|
        0 <= i < after.len() && 0 <= j < after.len() && i != j implies after[i].id
        != after[j].id by {
        assert(after[i].id == columns[i].id);
        assert(after[j].id == columns[j].id);
    }
}

} // verus!
