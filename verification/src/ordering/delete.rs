//! The cascade-delete transaction: a column leaves with its cards, and its
//! board is renumbered before the transaction commits.

use vstd::prelude::*;
use crate::errors::StorageFailure;

verus! {

/// Why a column was not deleted.
#[derive(Debug, Clone, PartialEq, Eq)]
pub enum DeleteError {
    /// The column does not exist, or was deleted in the meantime.
    MemberNotFound,
    /// The storage layer failed.
    Storage(StorageFailure),
    /// The transaction was handed an answer to a question it had not asked.
    UnexpectedEvent,
}

/// Where a delete transaction stands.
#[derive(Debug, Clone, Copy, PartialEq, Eq, Structural)]
pub enum DeleteState {
    /// Asked for the board of the column.
    LookingUp,
    /// Asked to delete the cards of the column, which belongs to `board_id`.
    DeletingCards { board_id: i32 },
    /// Asked to delete the column, which belongs to `board_id`.
    DeletingColumn { board_id: i32 },
    /// Asked to renumber the columns that remain.
    Renumbering,
    /// Committed or aborted.
    Finished,
}

/// An answer of the storage layer.
#[derive(Debug, Clone, PartialEq, Eq)]
pub enum DeleteEvent {
    /// The board of the column, if the column exists.
    LookedUp(Option<i32>),
    /// How many cards were deleted.
    CardsDeleted(u64),
    /// How many columns were deleted.
    ColumnDeleted(u64),
    /// How many columns were renumbered.
    Renumbered(u64),
    /// The statement failed.
    Failed(StorageFailure),
}

/// What the transaction asks of the storage layer.
#[derive(Debug, Clone, PartialEq, Eq)]
pub enum DeleteAction {
    /// Give the board of this column.
    LookUp(i32),
    /// Delete the cards of this column.
    DeleteCards(i32),
    /// Delete this column and say how many columns were deleted.
    DeleteColumn(i32),
    /// Give the columns of this board the positions `0, 1, ..` in the order
    /// of their positions, and of their identifiers where positions are
    /// equal.
    Renumber(i32),
    /// Commit, and answer with success.
    Commit,
    /// Roll back, and answer with this error.
    Abort(DeleteError),
}

/// What a transaction that deletes the column `id` does in `state` on
/// `event`: the state it moves to, and what it asks for.
pub open spec fn delete_transition(id: i32, state: DeleteState, event: DeleteEvent) -> (
    DeleteState,
    DeleteAction,
) {
    match (state, event) {
        (DeleteState::Finished, _) => (
            DeleteState::Finished,
            DeleteAction::Abort(DeleteError::UnexpectedEvent),
        ),
        (_, DeleteEvent::Failed(failure)) => (
            DeleteState::Finished,
            DeleteAction::Abort(DeleteError::Storage(failure)),
        ),
        (DeleteState::LookingUp, DeleteEvent::LookedUp(found)) => match found {
            Some(board_id) => (DeleteState::DeletingCards { board_id }, DeleteAction::DeleteCards(id)),
            None => (DeleteState::Finished, DeleteAction::Abort(DeleteError::MemberNotFound)),
        },
        (DeleteState::DeletingCards { board_id }, DeleteEvent::CardsDeleted(_)) => (
            DeleteState::DeletingColumn { board_id },
            DeleteAction::DeleteColumn(id),
        ),
        (DeleteState::DeletingColumn { board_id }, DeleteEvent::ColumnDeleted(rows)) => if rows
            == 0 {
            (DeleteState::Finished, DeleteAction::Abort(DeleteError::MemberNotFound))
        } else {
            (DeleteState::Renumbering, DeleteAction::Renumber(board_id))
        },
        (DeleteState::Renumbering, DeleteEvent::Renumbered(_)) => (
            DeleteState::Finished,
            DeleteAction::Commit,
        ),
        _ => (DeleteState::Finished, DeleteAction::Abort(DeleteError::UnexpectedEvent)),
    }
}

/// Opens a transaction that deletes the column `id`: the first question is
/// which board the column belongs to.
pub fn delete_begin(id: i32) -> (first: (DeleteState, DeleteAction))
    ensures
        first == (DeleteState::LookingUp, DeleteAction::LookUp(id)),
{
    (DeleteState::LookingUp, DeleteAction::LookUp(id))
}

/// Takes the storage layer's answer `event` in `state` and says what the
/// transaction that deletes the column `id` does next.
pub fn delete_step(id: i32, state: DeleteState, event: DeleteEvent) -> (step: (
    DeleteState,
    DeleteAction,
))
    ensures
        step == delete_transition(id, state, event),
{
    match state {
        DeleteState::Finished => (
            DeleteState::Finished,
            DeleteAction::Abort(DeleteError::UnexpectedEvent),
        ),
        _ => match event {
            DeleteEvent::Failed(failure) => (
                DeleteState::Finished,
                DeleteAction::Abort(DeleteError::Storage(failure)),
            ),
            DeleteEvent::LookedUp(found) => match state {
                DeleteState::LookingUp => match found {
                    Some(board_id) => (
                        DeleteState::DeletingCards { board_id },
                        DeleteAction::DeleteCards(id),
                    ),
                    None => (
                        DeleteState::Finished,
                        DeleteAction::Abort(DeleteError::MemberNotFound),
                    ),
                },
                _ => (DeleteState::Finished, DeleteAction::Abort(DeleteError::UnexpectedEvent)),
            },
            DeleteEvent::CardsDeleted(_) => match state {
                DeleteState::DeletingCards { board_id } => (
                    DeleteState::DeletingColumn { board_id },
                    DeleteAction::DeleteColumn(id),
                ),
                _ => (DeleteState::Finished, DeleteAction::Abort(DeleteError::UnexpectedEvent)),
            },
            DeleteEvent::ColumnDeleted(rows) => match state {
                DeleteState::DeletingColumn { board_id } => if rows == 0 {
                    (DeleteState::Finished, DeleteAction::Abort(DeleteError::MemberNotFound))
                } else {
                    (DeleteState::Renumbering, DeleteAction::Renumber(board_id))
                },
                _ => (DeleteState::Finished, DeleteAction::Abort(DeleteError::UnexpectedEvent)),
            },
            DeleteEvent::Renumbered(_) => match state {
                DeleteState::Renumbering => (DeleteState::Finished, DeleteAction::Commit),
                _ => (DeleteState::Finished, DeleteAction::Abort(DeleteError::UnexpectedEvent)),
            },
        },
    }
}

} // verus!
