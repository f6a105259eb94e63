//! Creating, changing and deleting columns.

use vstd::prelude::*;
use crate::errors::{missing_board_message, missing_board_text, AppError, ErrorKind};
use crate::handlers::check_title;
use crate::models::column::{BoardColumn, UpdateColumnRequest};
use crate::ordering::density::{
    lemma_move_keeps_density, lemma_renumber_spares_others, lemma_renumbered_is_dense,
    lemma_same_places, lemma_update_keeps_distinct,
};
use crate::ordering::laws::lemma_highest_of_dense;
use crate::ordering::store::{
    column_index, dense_board, distinct_ids, highest_position, lemma_column_index, renumbered,
    ColumnStore,
};
use crate::text::blank;

pub use crate::ordering::delete::{
    delete_begin, delete_step, DeleteAction, DeleteError, DeleteEvent, DeleteState,
};
pub use crate::ordering::engine::delete_column;

verus! {

/// Accepts the board `board_id` if it exists.
pub fn require_board(exists: bool, board_id: i32) -> (outcome: Result<(), AppError>)
    ensures
        match outcome {
            Ok(()) => exists,
            Err(error) => !exists && error.kind() == ErrorKind::NotFound && error.text()
                == missing_board_text(board_id),
        },
{
    if exists {
        Ok(())
    } else {
        Err(AppError::NotFound(missing_board_message(board_id)))
    }
}

/// The position of a column added to a board whose highest position is
/// `highest`: one more, or zero where the board has no column. `None`
/// where no higher position exists.
pub open spec fn next_free_position(highest: Option<i32>) -> Option<i32> {
    match highest {
        None => Some(0i32),
        Some(top) => if top < i32::MAX {
            Some((top + 1) as i32)
        } else {
            None
        },
    }
}

/// The position of a column added to a board whose highest position is
/// `highest`.
pub fn next_position(highest: Option<i32>) -> (position: Option<i32>)
    ensures
        position == next_free_position(highest),
{
    match highest {
        None => Some(0),
        Some(top) => if top < i32::MAX {
            Some(top + 1)
        } else {
            None
        },
    }
}

/// Accepts a change to a column unless it sets a title that holds nothing
/// but white space.
pub fn check_column_update(request: &UpdateColumnRequest) -> (outcome: Result<(), AppError>)
    ensures
        match outcome {
            Ok(()) => request.title matches Some(title) ==> !blank(title@),
            Err(error) => request.title matches Some(title) && blank(title@) && error.kind()
                == ErrorKind::Validation && error.text() == "Title is required"@,
        },
{
    match &request.title {
        Some(title) => check_title(title.as_str()),
        None => Ok(()),
    }
}

/// What to write for a change to a column, and the board to renumber
/// after the write, if the column leaves one.
pub struct ColumnChange {
    pub title: String,
    pub board_id: i32,
    pub position: i32,
    pub renumber: Option<i32>,
}

/// The request asks for another position than the column has. A column is
/// given another position only by reordering the columns of its board.
pub open spec fn asks_to_reposition(current: BoardColumn, request: UpdateColumnRequest) -> bool {
    request.position matches Some(position) && position != current.position
}

/// The request moves the column to another board than it is on.
pub open spec fn moves_board(current: BoardColumn, request: UpdateColumnRequest) -> bool {
    request.board_id matches Some(board_id) && board_id != current.board_id
}

/// The board that the column is on after the change.
pub open spec fn target_board(current: BoardColumn, request: UpdateColumnRequest) -> i32 {
    match request.board_id {
        Some(board_id) => board_id,
        None => current.board_id,
    }
}

/// The column `current` after the change that `request` asks for, made at
/// `now`: the title where the request sets one; where it moves the column
/// to another board, that board and the position after the highest one on
/// it, `highest`; the position the column has otherwise.
pub open spec fn changed_column(
    current: BoardColumn,
    request: UpdateColumnRequest,
    highest: Option<i32>,
    now: i64,
) -> BoardColumn {
    BoardColumn {
        title: match request.title {
            Some(title) => title,
            None => current.title,
        },
        board_id: target_board(current, request),
        position: if moves_board(current, request) {
            next_free_position(highest).unwrap()
        } else {
            current.position
        },
        updated_at: now,
        ..current
    }
}

/// What to write for the change to `current` that `request` asks for.
/// `highest` is the highest position on the board that the request names,
/// if that board has columns.
///
/// The change never gives a column another position on its board: a
/// request that asks for one is refused. A column that moves to another
/// board goes to its end, and the board it leaves is to be renumbered.
pub fn plan_column_update(
    current: BoardColumn,
    request: UpdateColumnRequest,
    highest: Option<i32>,
) -> (outcome: Result<ColumnChange, AppError>)
    ensures
        match outcome {
            Ok(change) => {
                &&& !asks_to_reposition(current, request)
                &&& !(moves_board(current, request) && next_free_position(highest).is_none())
                &&& change.title == changed_column(current, request, highest, 0).title
                &&& change.board_id == target_board(current, request)
                &&& change.position == changed_column(current, request, highest, 0).position
                &&& change.renumber == if moves_board(current, request) {
                    Some(current.board_id)
                } else {
                    None::<i32>
                }
            },
            Err(error) => if asks_to_reposition(current, request) {
                error.kind() == ErrorKind::Validation && error.text()
                    == "Position can only be changed by reordering the columns of the board"@
            } else {
                &&& moves_board(current, request)
                &&& next_free_position(highest).is_none()
                &&& error.kind() == ErrorKind::Internal
                &&& error.text() == "No position is left on the board"@
            },
        },
{
    match request.position {
        Some(position) => if position != current.position {
            return Err(
                AppError::ValidationError(
                    String::from_str(
                        "Position can only be changed by reordering the columns of the board",
                    ),
                ),
            );
        },
        None => {},
    }
    let title = match request.title {
        Some(title) => title,
        None => current.title,
    };
    let moved_to = match request.board_id {
        Some(board_id) => if board_id != current.board_id {
            Some(board_id)
        } else {
            None
        },
        None => None,
    };
    match moved_to {
        Some(board_id) => match next_position(highest) {
            Some(position) => Ok(
                ColumnChange { title, board_id, position, renumber: Some(current.board_id) },
            ),
            None => Err(
                AppError::InternalError(String::from_str("No position is left on the board")),
            ),
        },
        None => Ok(
            ColumnChange {
                title,
                board_id: current.board_id,
                position: current.position,
                renumber: None,
            },
        ),
    }
}

/// Why the store refuses the change that `request` asks for the column
/// `id`, if it does: the kind of the failure and what the caller is told.
/// The checks come in this order: the title, the column, the board named,
/// the position, the room left on the board named.
pub open spec fn column_update_refusal(
    boards: Seq<i32>,
    columns: Seq<BoardColumn>,
    id: i32,
    request: UpdateColumnRequest,
) -> Option<(ErrorKind, Seq<char>)> {
    if request.title matches Some(title) && blank(title@) {
        Some((ErrorKind::Validation, "Title is required"@))
    } else if column_index(columns, id).is_none() {
        Some((ErrorKind::NotFound, "Resource not found"@))
    } else {
        let current = columns[column_index(columns, id).unwrap()];
        if request.board_id.is_some() && !boards.contains(request.board_id.unwrap()) {
            Some((ErrorKind::NotFound, missing_board_text(request.board_id.unwrap())))
        } else if asks_to_reposition(current, request) {
            Some(
                (
                    ErrorKind::Validation,
                    "Position can only be changed by reordering the columns of the board"@,
                ),
            )
        } else if moves_board(current, request) && next_free_position(
            highest_position(columns, target_board(current, request)),
        ).is_none() {
            Some((ErrorKind::Internal, "No position is left on the board"@))
        } else {
            None
        }
    }
}

/// The columns after the change that `request` asks for the column at
/// `place` was made at `now`: the changed column in its place and, where
/// it moved to another board, the board it left renumbered.
pub open spec fn after_column_update(
    columns: Seq<BoardColumn>,
    place: int,
    request: UpdateColumnRequest,
    now: i64,
) -> Seq<BoardColumn> {
    let current = columns[place];
    let written = columns.update(
        place,
        changed_column(
            current,
            request,
            highest_position(columns, target_board(current, request)),
            now,
        ),
    );
    if moves_board(current, request) {
        renumbered(written, current.board_id, now)
    } else {
        written
    }
}

/// The columns after the change that `request` asks for the column `id`
/// was asked for at `now`: changed where the change is not refused, as
/// they were otherwise.
pub open spec fn after_update(
    boards: Seq<i32>,
    columns: Seq<BoardColumn>,
    id: i32,
    request: UpdateColumnRequest,
    now: i64,
) -> Seq<BoardColumn> {
    if column_update_refusal(boards, columns, id, request).is_none() {
        after_column_update(columns, column_index(columns, id).unwrap(), request, now)
    } else {
        columns
    }
}

/// A change to a column keeps the number of columns and keeps their
/// identifiers distinct.
pub proof fn lemma_column_update_keeps_distinct(
    columns: Seq<BoardColumn>,
    place: int,
    request: UpdateColumnRequest,
    now: i64,
)
    requires
        distinct_ids(columns),
        columns.len() <= i32::MAX,
        0 <= place < columns.len(),
    ensures
        after_column_update(columns, place, request, now).len() == columns.len(),
        distinct_ids(after_column_update(columns, place, request, now)),
{
    let current = columns[place];
    let target = target_board(current, request);
    let row = changed_column(current, request, highest_position(columns, target), now);
    let written = columns.update(place, row);
    lemma_update_keeps_distinct(columns, place, row);
    if moves_board(current, request) {
        lemma_renumbered_is_dense(written, current.board_id, now);
    }
}

/// A change to a column keeps the positions of every board dense: the
/// column keeps its position, or goes to the end of another board while
/// the board it leaves is renumbered.
pub proof fn law_column_update_keeps_density(
    columns: Seq<BoardColumn>,
    place: int,
    request: UpdateColumnRequest,
    now: i64,
    other: i32,
)
    requires
        distinct_ids(columns),
        columns.len() <= i32::MAX,
        0 <= place < columns.len(),
        moves_board(columns[place], request) ==> next_free_position(
            highest_position(columns, target_board(columns[place], request)),
        ).is_some(),
        dense_board(columns, other),
    ensures
        dense_board(after_column_update(columns, place, request, now), other),
{
    let current = columns[place];
    let target = target_board(current, request);
    let row = changed_column(current, request, highest_position(columns, target), now);
    let written = columns.update(place, row);
    lemma_update_keeps_distinct(columns, place, row);
    if moves_board(current, request) {
        let source = current.board_id;
        lemma_renumbered_is_dense(written, source, now);
        if other != source {
            if other == target {
                lemma_highest_of_dense(columns, other);
            }
            lemma_move_keeps_density(columns, place, row, other);
            lemma_renumber_spares_others(written, source, now, other);
        }
    } else {
        lemma_same_places(columns, written, other);
    }
}

/// Changes the column `id` as `request` asks, at the time `now`, and
/// returns the column as it then stands.
///
/// The change is applied whole or not at all. Where it is applied, the
/// title is the one asked for, if one was. The column keeps its position,
/// unless it moves to another board: then it stands at the end of that
/// board, and the columns that remain on the board it left are renumbered.
/// So the positions of every board that were dense are dense afterwards.
pub fn update_column(store: &mut ColumnStore, id: i32, request: UpdateColumnRequest, now: i64) -> (outcome:
    Result<BoardColumn, AppError>)
    requires
        old(store).well_formed(),
    ensures
        final(store).well_formed(),
        final(store).boards == old(store).boards,
        final(store).cards == old(store).cards,
        final(store).columns@ == after_update(
            old(store).boards@,
            old(store).columns@,
            id,
            request,
            now,
        ),
        match outcome {
            Ok(column) => {
                &&& column_update_refusal(
                    old(store).boards@,
                    old(store).columns@,
                    id,
                    request,
                ).is_none()
                &&& column_index(old(store).columns@, id) matches Some(place)
                &&& final(store).columns@ == after_column_update(
                    old(store).columns@,
                    place,
                    request,
                    now,
                )
                &&& column == final(store).columns@[place]
            },
            Err(error) => {
                &&& column_update_refusal(old(store).boards@, old(store).columns@, id, request)
                    == Some((error.kind(), error.text()))
                &&& final(store).columns == old(store).columns
            },
        },
        forall|other: i32|
            dense_board(old(store).columns@, other) ==> dense_board(final(store).columns@, other),
{
    let ghost before = store.columns@;
    match check_column_update(&request) {
        Err(error) => {
            return Err(error);
        },
        Ok(()) => {},
    }
    let place = match store.column_place(id) {
        Some(place) => place,
        None => {
            return Err(AppError::NotFound(String::from_str("Resource not found")));
        },
    };
    proof {
        lemma_column_index(before, id);
    }
    let target = match request.board_id {
        Some(board_id) => {
            match require_board(store.board_exists(board_id), board_id) {
                Err(error) => {
                    return Err(error);
                },
                Ok(()) => {},
            }
            board_id
        },
        None => store.columns[place].board_id,
    };
    let highest = store.highest_on_board(target);
    let current = store.columns[place].duplicate();
    let ghost row = changed_column(before[place as int], request, highest, now);
    let change = match plan_column_update(current, request, highest) {
        Ok(change) => change,
        Err(error) => {
            return Err(error);
        },
    };
    let kept = store.columns[place].duplicate();
    store.columns[place] = BoardColumn {
        title: change.title,
        board_id: change.board_id,
        position: change.position,
        updated_at: now,
        ..kept
    };
    let ghost written = before.update(place as int, row);
    assert(store.columns@ =~= written);
    proof {
        lemma_column_update_keeps_distinct(before, place as int, request, now);
        assert forall|other: i32| dense_board(before, other) implies dense_board(
            after_column_update(before, place as int, request, now),
            other,
        ) by {
            law_column_update_keeps_density(before, place as int, request, now, other);
        }
    }
    match change.renumber {
        Some(source) => {
            store.renumber(source, now);
        },
        None => {},
    }
    Ok(store.columns[place].duplicate())
}

} // verus!
