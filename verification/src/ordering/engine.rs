//! The two operations of the engine, run against the store: reordering the
//! columns of a board, and deleting a column with its cards.

use vstd::prelude::*;
use crate::models::column::BoardColumn;
use crate::ordering::delete::{
    delete_begin, delete_step, DeleteAction, DeleteError, DeleteEvent,
};
use crate::ordering::density::{
    lemma_columns_match_ids, lemma_legal_write_count, lemma_legal_write_is_dense,
    lemma_ordered_positions, lemma_write_keeps_boards, lemma_remove_keeps_distinct,
    lemma_remove_spares_others, lemma_renumber_spares_others,
    lemma_renumbered_is_dense, lemma_write_keeps_distinct, lemma_write_spares_others,
};
use crate::ordering::reorder::{
    reorder_begin, reorder_step, ReorderAction, ReorderError, ReorderEvent,
};
use crate::ordering::statement::lemma_binds_read_back;
use crate::ordering::store::{
    board_column_ids, board_columns, board_of, cards_outside, column_index, columns_without,
    dense_board, in_board_order, lemma_column_index, renumbered, with_positions, ColumnStore,
};
use crate::ordering::validator::{first_violation, BulkColumnOrderUpdate, ColumnOrderUpdate};

verus! {

/// Why the store refuses the reordering `request`, if it does: the board
/// must exist, and the ordering must be a legal reordering of its columns.
pub open spec fn reorder_refusal(store: ColumnStore, request: BulkColumnOrderUpdate) -> Option<
    ReorderError,
> {
    if !store.boards@.contains(request.board_id) {
        Some(ReorderError::CollectionNotFound)
    } else {
        match first_violation(
            board_column_ids(store.columns@, request.board_id),
            request.columns@,
        ) {
            Some(violation) => Some(ReorderError::Validation(violation)),
            None => None,
        }
    }
}

/// The columns after the reordering `updates` of `board_id` was asked for
/// at the time `now`: rewritten where the board is among `boards` and the
/// ordering is legal, as they were otherwise.
pub open spec fn after_reorder(
    boards: Seq<i32>,
    columns: Seq<BoardColumn>,
    board_id: i32,
    updates: Seq<ColumnOrderUpdate>,
    now: i64,
) -> Seq<BoardColumn> {
    if boards.contains(board_id) && first_violation(
        board_column_ids(columns, board_id),
        updates,
    ).is_none() {
        with_positions(columns, board_id, updates, now)
    } else {
        columns
    }
}

/// The columns after the deletion of the column `id` was asked for at the
/// time `now`: without it, and its board renumbered, where it exists; as
/// they were otherwise.
pub open spec fn after_delete(columns: Seq<BoardColumn>, id: i32, now: i64) -> Seq<BoardColumn> {
    match board_of(columns, id) {
        Some(board_id) => renumbered(columns_without(columns, id), board_id, now),
        None => columns,
    }
}

/// Reorders the columns of a board as `request` asks, at the time `now`,
/// and returns the columns of the board in their new order.
///
/// The reordering is applied whole or not at all. It is refused, and the
/// store left as it was, where the board does not exist or the ordering is
/// not a legal reordering of its columns. Where it is applied, each column
/// of the board has the position asked for it, no other column has changed,
/// and the positions of the board are dense.
pub fn bulk_update_column_order(
    store: &mut ColumnStore,
    request: &BulkColumnOrderUpdate,
    now: i64,
) -> (outcome: Result<Vec<BoardColumn>, ReorderError>)
    requires
        old(store).well_formed(),
    ensures
        final(store).well_formed(),
        final(store).boards == old(store).boards,
        final(store).cards == old(store).cards,
        final(store).columns@ == after_reorder(
            old(store).boards@,
            old(store).columns@,
            request.board_id,
            request.columns@,
            now,
        ),
        match outcome {
            Ok(columns) => {
                &&& reorder_refusal(*old(store), *request).is_none()
                &&& final(store).columns@ == with_positions(
                    old(store).columns@,
                    request.board_id,
                    request.columns@,
                    now,
                )
                &&& in_board_order(columns@)
                &&& columns@.to_multiset() == board_columns(
                    final(store).columns@,
                    request.board_id,
                ).to_multiset()
                &&& dense_board(final(store).columns@, request.board_id)
                &&& columns@.len() == request.columns@.len()
                &&& forall|k: int|
                    0 <= k < columns@.len() ==> (#[trigger] columns@[k]).position == k
                        && columns@[k].board_id == request.board_id
            },
            Err(error) => {
                &&& reorder_refusal(*old(store), *request) == Some(error)
                &&& final(store).columns == old(store).columns
            },
        },
        forall|other: i32|
            dense_board(old(store).columns@, other) ==> dense_board(final(store).columns@, other),
{
    let ghost before = store.columns@;
    let ghost board_id = request.board_id;
    let ghost updates = request.columns@;
    let ghost after = with_positions(before, board_id, updates, now);
    proof {
        lemma_binds_read_back(board_id, updates);
        lemma_write_keeps_distinct(before, board_id, updates, now);
        if first_violation(board_column_ids(before, board_id), updates).is_none() {
            lemma_legal_write_count(before, board_id, updates);
            lemma_legal_write_is_dense(before, board_id, updates, now);
            if updates.len() == 0 {
                lemma_columns_match_ids(before, board_id);
                assert(after =~= before);
                assert(board_columns(before, board_id) =~= Seq::empty());
            }
        }
        assert forall|other: i32| other != board_id && dense_board(before, other) implies dense_board(
            after,
            other,
        ) by {
            lemma_write_spares_others(before, board_id, updates, now, other);
        }
    }
    let (state, action) = reorder_begin(request);
    let exists = store.board_exists(request.board_id);
    let (state, action) = reorder_step(request, state, ReorderEvent::BoardChecked(exists));
    let loaded = match action {
        ReorderAction::LoadColumnIds(board) => store.column_ids(board),
        ReorderAction::Abort(error) => {
            return Err(error);
        },
        _ => {
            return Err(ReorderError::UnexpectedEvent);
        },
    };
    let (state, action) = reorder_step(request, state, ReorderEvent::ColumnsLoaded(loaded));
    let written = match action {
        ReorderAction::Write(write) => store.run_position_write(&write, now),
        ReorderAction::Commit(columns) => {
            assert(columns@ =~= Seq::empty());
            return Ok(columns);
        },
        ReorderAction::Abort(error) => {
            return Err(error);
        },
        _ => {
            return Err(ReorderError::UnexpectedEvent);
        },
    };
    // From here on the store has been written. No refusal is reached any
    // more: nothing interferes between the steps, so the write has changed
    // exactly the columns that the ordering names.
    let rows = match written {
        Some(rows) => rows,
        None => {
            return Err(ReorderError::UnexpectedEvent);
        },
    };
    let (state, action) = reorder_step(request, state, ReorderEvent::Written(rows));
    let ordered = match action {
        ReorderAction::ReadBack(board) => store.columns_in_order(board),
        ReorderAction::Abort(error) => {
            return Err(error);
        },
        _ => {
            return Err(ReorderError::UnexpectedEvent);
        },
    };
    proof {
        lemma_write_keeps_boards(before, board_id, updates, now, board_id);
        lemma_ordered_positions(after, board_id, ordered@);
    }
    let (_, action) = reorder_step(request, state, ReorderEvent::ReadBack(ordered));
    match action {
        ReorderAction::Commit(columns) => Ok(columns),
        ReorderAction::Abort(error) => Err(error),
        _ => Err(ReorderError::UnexpectedEvent),
    }
}

/// Deletes the column `id` at the time `now`: its cards first, then the
/// column, then the columns that remain on its board are renumbered.
///
/// The deletion is applied whole or not at all. It is refused, and the
/// store left as it was, where the column does not exist. Where it is
/// applied, the column and its cards are gone, the columns that remain on
/// its board have the positions `0, 1, ..` in the order they had, and
/// nothing else has changed.
pub fn delete_column(store: &mut ColumnStore, id: i32, now: i64) -> (outcome: Result<
    (),
    DeleteError,
>)
    requires
        old(store).well_formed(),
    ensures
        final(store).well_formed(),
        final(store).boards == old(store).boards,
        final(store).columns@ == after_delete(old(store).columns@, id, now),
        match outcome {
            Ok(()) => {
                &&& board_of(old(store).columns@, id) matches Some(board_id)
                &&& final(store).cards@ == cards_outside(old(store).cards@, id)
                &&& final(store).columns@ == renumbered(
                    columns_without(old(store).columns@, id),
                    board_id,
                    now,
                )
                &&& column_index(final(store).columns@, id).is_none()
                &&& dense_board(final(store).columns@, board_id)
            },
            Err(error) => {
                &&& error == DeleteError::MemberNotFound
                &&& board_of(old(store).columns@, id).is_none()
                &&& final(store).columns == old(store).columns
                &&& final(store).cards == old(store).cards
            },
        },
        forall|other: i32|
            dense_board(old(store).columns@, other) ==> dense_board(final(store).columns@, other),
{
    let ghost before = store.columns@;
    proof {
        lemma_column_index(before, id);
        if column_index(before, id).is_some() {
            let k = column_index(before, id).unwrap();
            let board_id = before[k].board_id;
            let remaining = before.remove(k);
            let after = renumbered(remaining, board_id, now);
            lemma_remove_keeps_distinct(before, k);
            lemma_renumbered_is_dense(remaining, board_id, now);
            lemma_column_index(after, id);
            assert forall|i: int| 0 <= i < after.len() implies after[i].id != id by {
                assert(after[i].id == remaining[i].id);
            }
            assert forall|other: i32| dense_board(before, other) implies dense_board(
                after,
                other,
            ) by {
                if other != board_id {
                    lemma_remove_spares_others(before, k, other);
                    lemma_renumber_spares_others(remaining, board_id, now, other);
                }
            }
        }
    }
    let (state, action) = delete_begin(id);
    let found = store.column_board(id);
    let (state, action) = delete_step(id, state, DeleteEvent::LookedUp(found));
    let cards = match action {
        DeleteAction::DeleteCards(column) => store.delete_cards_of(column),
        DeleteAction::Abort(error) => {
            return Err(error);
        },
        _ => {
            return Err(DeleteError::UnexpectedEvent);
        },
    };
    // From here on the store has been written. No refusal is reached any
    // more: the column was found, so deleting it removes a row.
    let (state, action) = delete_step(id, state, DeleteEvent::CardsDeleted(cards));
    let deleted = match action {
        DeleteAction::DeleteColumn(column) => store.delete_column_row(column),
        DeleteAction::Abort(error) => {
            return Err(error);
        },
        _ => {
            return Err(DeleteError::UnexpectedEvent);
        },
    };
    let (state, action) = delete_step(id, state, DeleteEvent::ColumnDeleted(deleted));
    let renumbered_rows = match action {
        DeleteAction::Renumber(board) => store.renumber(board, now),
        DeleteAction::Abort(error) => {
            return Err(error);
        },
        _ => {
            return Err(DeleteError::UnexpectedEvent);
        },
    };
    let (_, action) = delete_step(id, state, DeleteEvent::Renumbered(renumbered_rows));
    match action {
        DeleteAction::Commit => Ok(()),
        DeleteAction::Abort(error) => Err(error),
        _ => Err(DeleteError::UnexpectedEvent),
    }
}

} // verus!
