//! The reorder transaction: what to ask of the storage layer next, and
//! what to make of each answer.

use vstd::prelude::*;
use crate::errors::StorageFailure;
use crate::models::column::BoardColumn;
use crate::ordering::statement::{build_position_write, write_binds, write_sql, PositionWrite};
use crate::ordering::validator::{
    first_violation, validate_order, BulkColumnOrderUpdate, OrderViolation,
};

verus! {

/// Why a reordering was not applied.
#[derive(Debug, Clone, PartialEq, Eq)]
pub enum ReorderError {
    /// The board does not exist.
    CollectionNotFound,
    /// The ordering is not a legal reordering of the board's columns.
    Validation(OrderViolation),
    /// The write changed fewer columns than the ordering names: a column
    /// was deleted or moved to another board in the meantime.
    ConcurrentModification,
    /// The storage layer failed.
    Storage(StorageFailure),
    /// The transaction was handed an answer to a question it had not asked.
    UnexpectedEvent,
}

/// Where a reorder transaction stands.
#[derive(Debug, Clone, Copy, PartialEq, Eq, Structural)]
pub enum ReorderState {
    /// Asked whether the board exists.
    CheckingBoard,
    /// Asked for the identifiers of the board's columns.
    LoadingColumns,
    /// Asked to write the positions; `expected` columns must change.
    Writing { expected: u64 },
    /// Asked for the columns in their new order.
    ReadingBack,
    /// Committed or aborted.
    Finished,
}

/// An answer of the storage layer.
#[derive(Debug, Clone, PartialEq, Eq)]
pub enum ReorderEvent {
    /// Whether the board exists.
    BoardChecked(bool),
    /// The identifiers of the board's columns.
    ColumnsLoaded(Vec<i32>),
    /// How many columns the write changed.
    Written(u64),
    /// The columns of the board in order.
    ReadBack(Vec<BoardColumn>),
    /// The statement failed.
    Failed(StorageFailure),
}

/// What the transaction asks of the storage layer.
#[derive(Debug, Clone, PartialEq, Eq)]
pub enum ReorderAction {
    /// Say whether the board exists.
    CheckBoard(i32),
    /// Give the identifiers of the board's columns.
    LoadColumnIds(i32),
    /// Run the statement and say how many columns it changed.
    Write(PositionWrite),
    /// Give the board's columns by position, then by identifier.
    ReadBack(i32),
    /// Commit, and answer with these columns.
    Commit(Vec<BoardColumn>),
    /// Roll back, and answer with this error.
    Abort(ReorderError),
}

/// What a transaction for `request` does in `state` on `event`: `next` is
/// the state it moves to and `action` what it asks for.
pub open spec fn reorder_transition(
    request: BulkColumnOrderUpdate,
    state: ReorderState,
    event: ReorderEvent,
    next: ReorderState,
    action: ReorderAction,
) -> bool {
    match (state, event) {
        (ReorderState::Finished, _) => next == ReorderState::Finished && action
            == ReorderAction::Abort(ReorderError::UnexpectedEvent),
        (_, ReorderEvent::Failed(failure)) => next == ReorderState::Finished && action
            == ReorderAction::Abort(ReorderError::Storage(failure)),
        (ReorderState::CheckingBoard, ReorderEvent::BoardChecked(exists)) => if exists {
            next == ReorderState::LoadingColumns && action == ReorderAction::LoadColumnIds(
                request.board_id,
            )
        } else {
            next == ReorderState::Finished && action == ReorderAction::Abort(
                ReorderError::CollectionNotFound,
            )
        },
        (ReorderState::LoadingColumns, ReorderEvent::ColumnsLoaded(ids)) => match first_violation(
            ids@,
            request.columns@,
        ) {
            Some(violation) => next == ReorderState::Finished && action == ReorderAction::Abort(
                ReorderError::Validation(violation),
            ),
            None => if request.columns@.len() == 0 {
                &&& next == ReorderState::Finished
                &&& action matches ReorderAction::Commit(columns)
                &&& columns@.len() == 0
            } else {
                &&& next == (ReorderState::Writing { expected: request.columns@.len() as u64 })
                &&& action matches ReorderAction::Write(write)
                &&& write.sql@ == write_sql(request.columns@.len())
                &&& write.binds@ == write_binds(request.board_id, request.columns@)
            },
        },
        (ReorderState::Writing { expected }, ReorderEvent::Written(rows)) => if rows == expected {
            next == ReorderState::ReadingBack && action == ReorderAction::ReadBack(
                request.board_id,
            )
        } else {
            next == ReorderState::Finished && action == ReorderAction::Abort(
                ReorderError::ConcurrentModification,
            )
        },
        (ReorderState::ReadingBack, ReorderEvent::ReadBack(columns)) => next
            == ReorderState::Finished && action == ReorderAction::Commit(columns),
        _ => next == ReorderState::Finished && action == ReorderAction::Abort(
            ReorderError::UnexpectedEvent,
        ),
    }
}

/// Opens a reorder transaction for `request`: the first question is
/// whether the board exists.
pub fn reorder_begin(request: &BulkColumnOrderUpdate) -> (first: (ReorderState, ReorderAction))
    ensures
        first.0 == ReorderState::CheckingBoard,
        first.1 == ReorderAction::CheckBoard(request.board_id),
{
    (ReorderState::CheckingBoard, ReorderAction::CheckBoard(request.board_id))
}

/// Takes the storage layer's answer `event` in `state` and says what the
/// transaction for `request` does next.
pub fn reorder_step(request: &BulkColumnOrderUpdate, state: ReorderState, event: ReorderEvent) -> (step: (
    ReorderState,
    ReorderAction,
))
    ensures
        reorder_transition(*request, state, event, step.0, step.1),
{
    match state {
        ReorderState::Finished => (
            ReorderState::Finished,
            ReorderAction::Abort(ReorderError::UnexpectedEvent),
        ),
        _ => match event {
            ReorderEvent::Failed(failure) => (
                ReorderState::Finished,
                ReorderAction::Abort(ReorderError::Storage(failure)),
            ),
            ReorderEvent::BoardChecked(exists) => match state {
                ReorderState::CheckingBoard => if exists {
                    (ReorderState::LoadingColumns, ReorderAction::LoadColumnIds(request.board_id))
                } else {
                    (
                        ReorderState::Finished,
                        ReorderAction::Abort(ReorderError::CollectionNotFound),
                    )
                },
                _ => (ReorderState::Finished, ReorderAction::Abort(ReorderError::UnexpectedEvent)),
            },
            ReorderEvent::ColumnsLoaded(ids) => match state {
                ReorderState::LoadingColumns => match validate_order(&ids, &request.columns) {
                    Err(violation) => (
                        ReorderState::Finished,
                        ReorderAction::Abort(ReorderError::Validation(violation)),
                    ),
                    Ok(()) => if request.columns.len() == 0 {
                        (ReorderState::Finished, ReorderAction::Commit(Vec::new()))
                    } else {
                        (
                            ReorderState::Writing { expected: request.columns.len() as u64 },
                            ReorderAction::Write(
                                build_position_write(request.board_id, &request.columns),
                            ),
                        )
                    },
                },
                _ => (ReorderState::Finished, ReorderAction::Abort(ReorderError::UnexpectedEvent)),
            },
            ReorderEvent::Written(rows) => match state {
                ReorderState::Writing { expected } => if rows == expected {
                    (ReorderState::ReadingBack, ReorderAction::ReadBack(request.board_id))
                } else {
                    (
                        ReorderState::Finished,
                        ReorderAction::Abort(ReorderError::ConcurrentModification),
                    )
                },
                _ => (ReorderState::Finished, ReorderAction::Abort(ReorderError::UnexpectedEvent)),
            },
            ReorderEvent::ReadBack(columns) => match state {
                ReorderState::ReadingBack => (
                    ReorderState::Finished,
                    ReorderAction::Commit(columns),
                ),
                _ => (ReorderState::Finished, ReorderAction::Abort(ReorderError::UnexpectedEvent)),
            },
        },
    }
}

} // verus!
