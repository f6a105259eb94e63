//! The failures of the service and how each is shown to a caller.

use vstd::prelude::*;
use crate::models::ApiResponse;
use crate::ordering::delete::DeleteError;
use crate::ordering::reorder::ReorderError;
use crate::ordering::validator::OrderViolation;
use crate::text::{decimal, push_decimal};

verus! {

/// What the storage layer reported when a statement failed.
#[derive(Debug, Clone, PartialEq, Eq)]
pub enum StorageFailure {
    /// A statement that must return a row returned none.
    RowNotFound,
    /// Any other failure, with the storage layer's own description.
    Other(String),
}

/// A failure of the service.
#[derive(Debug, Clone, PartialEq, Eq)]
pub enum AppError {
    DatabaseError(String),
    NotFound(String),
    ValidationError(String),
    Unauthorized(String),
    Conflict(String),
    InternalError(String),
}

/// The kind of a failure, without its message.
#[derive(Debug, Clone, Copy, PartialEq, Eq, Structural)]
pub enum ErrorKind {
    Database,
    NotFound,
    Validation,
    Unauthorized,
    Conflict,
    Internal,
}

/// The status with which a failure of the given kind is answered.
pub open spec fn status_of(kind: ErrorKind) -> u16 {
    match kind {
        ErrorKind::Database => 500,
        ErrorKind::NotFound => 404,
        ErrorKind::Validation => 400,
        ErrorKind::Unauthorized => 401,
        ErrorKind::Conflict => 409,
        ErrorKind::Internal => 500,
    }
}

/// What a caller is told when an ordering breaks the rule `violation`.
pub open spec fn violation_text(violation: OrderViolation) -> Seq<char> {
    match violation {
        OrderViolation::EmptyPayload => "At least one column is required"@,
        OrderViolation::NonNegativeViolation => "Position values must be non-negative"@,
        OrderViolation::CountMismatch => "Columns payload must include all columns for the board"@,
        OrderViolation::SetMismatch => "Columns payload does not match board columns"@,
        OrderViolation::DuplicatePosition => "Position values must be unique for all columns"@,
        OrderViolation::NonContiguousRange => "Position values must form a contiguous range starting at 0"@,
    }
}

/// What a caller is told when the board `board_id` does not exist.
pub open spec fn missing_board_text(board_id: i32) -> Seq<char> {
    "Board with id "@ + decimal(board_id as int) + " not found"@
}

/// What a caller is told when an ordering breaks the rule `violation`.
pub fn violation_message(violation: OrderViolation) -> (message: String)
    ensures
        message@ == violation_text(violation),
{
    match violation {
        OrderViolation::EmptyPayload => String::from_str("At least one column is required"),
        OrderViolation::NonNegativeViolation => String::from_str(
            "Position values must be non-negative",
        ),
        OrderViolation::CountMismatch => String::from_str(
            "Columns payload must include all columns for the board",
        ),
        OrderViolation::SetMismatch => String::from_str(
            "Columns payload does not match board columns",
        ),
        OrderViolation::DuplicatePosition => String::from_str(
            "Position values must be unique for all columns",
        ),
        OrderViolation::NonContiguousRange => String::from_str(
            "Position values must form a contiguous range starting at 0",
        ),
    }
}

/// What a caller is told when the board `board_id` does not exist.
pub fn missing_board_message(board_id: i32) -> (message: String)
    ensures
        message@ == missing_board_text(board_id),
{
    let mut message = String::from_str("Board with id ");
    push_decimal(&mut message, board_id as i64);
    message.append(" not found");
    message
}

impl AppError {
    /// The kind of the failure.
    pub open spec fn kind(&self) -> ErrorKind {
        match self {
            AppError::DatabaseError(_) => ErrorKind::Database,
            AppError::NotFound(_) => ErrorKind::NotFound,
            AppError::ValidationError(_) => ErrorKind::Validation,
            AppError::Unauthorized(_) => ErrorKind::Unauthorized,
            AppError::Conflict(_) => ErrorKind::Conflict,
            AppError::InternalError(_) => ErrorKind::Internal,
        }
    }

    /// The message that the failure holds.
    pub open spec fn text(&self) -> Seq<char> {
        match self {
            AppError::DatabaseError(message) => message@,
            AppError::NotFound(message) => message@,
            AppError::ValidationError(message) => message@,
            AppError::Unauthorized(message) => message@,
            AppError::Conflict(message) => message@,
            AppError::InternalError(message) => message@,
        }
    }

    /// The message that a caller is shown: a failure of the storage layer
    /// is not described to the caller.
    pub open spec fn shown_text(&self) -> Seq<char> {
        match self {
            AppError::DatabaseError(_) => "Database error occurred"@,
            _ => self.text(),
        }
    }

    /// The failure that stands for what the storage layer reported: a
    /// missing row is a resource that was not found, anything else a
    /// database error that keeps the storage layer's description.
    pub fn from_storage(failure: StorageFailure) -> (error: AppError)
        ensures
            match failure {
                StorageFailure::RowNotFound => error.kind() == ErrorKind::NotFound && error.text()
                    == "Resource not found"@,
                StorageFailure::Other(description) => error == AppError::DatabaseError(
                    description,
                ),
            },
    {
        match failure {
            StorageFailure::RowNotFound => AppError::NotFound(
                String::from_str("Resource not found"),
            ),
            StorageFailure::Other(description) => AppError::DatabaseError(description),
        }
    }

    /// The kind of the failure.
    pub fn error_kind(&self) -> (kind: ErrorKind)
        ensures
            kind == self.kind(),
    {
        match self {
            AppError::DatabaseError(_) => ErrorKind::Database,
            AppError::NotFound(_) => ErrorKind::NotFound,
            AppError::ValidationError(_) => ErrorKind::Validation,
            AppError::Unauthorized(_) => ErrorKind::Unauthorized,
            AppError::Conflict(_) => ErrorKind::Conflict,
            AppError::InternalError(_) => ErrorKind::Internal,
        }
    }

    /// The status with which the failure is answered.
    pub fn status_code(&self) -> (status: u16)
        ensures
            status == status_of(self.kind()),
    {
        match self {
            AppError::DatabaseError(_) => 500,
            AppError::NotFound(_) => 404,
            AppError::ValidationError(_) => 400,
            AppError::Unauthorized(_) => 401,
            AppError::Conflict(_) => 409,
            AppError::InternalError(_) => 500,
        }
    }

    /// The status and the body with which the failure is answered. The
    /// body reports no success and holds the message shown to the caller.
    pub fn into_response_parts(self) -> (parts: (u16, ApiResponse<()>))
        ensures
            parts.0 == status_of(self.kind()),
            !parts.1.success,
            parts.1.data.is_none(),
            parts.1.message.is_none(),
            parts.1.error.is_some(),
            parts.1.error.unwrap()@ == self.shown_text(),
    {
        let status = self.status_code();
        let shown = match self {
            AppError::DatabaseError(_) => String::from_str("Database error occurred"),
            AppError::NotFound(message) => message,
            AppError::ValidationError(message) => message,
            AppError::Unauthorized(message) => message,
            AppError::Conflict(message) => message,
            AppError::InternalError(message) => message,
        };
        (status, ApiResponse { success: false, data: None, error: Some(shown), message: None })
    }

    /// The failure with which a refused reordering of the board `board_id`
    /// is answered: a missing board is not found, a broken rule is a
    /// validation error that names the rule, interference is a conflict.
    pub fn from_reorder(error: ReorderError, board_id: i32) -> (answer: AppError)
        ensures
            match error {
                ReorderError::CollectionNotFound => answer.kind() == ErrorKind::NotFound
                    && answer.text() == missing_board_text(board_id),
                ReorderError::Validation(violation) => answer.kind() == ErrorKind::Validation
                    && answer.text() == violation_text(violation),
                ReorderError::ConcurrentModification => answer.kind() == ErrorKind::Conflict
                    && answer.text()
                    == "Failed to update column order due to concurrent modifications. Please try again."@,
                ReorderError::Storage(StorageFailure::RowNotFound) => answer.kind()
                    == ErrorKind::NotFound && answer.text() == "Resource not found"@,
                ReorderError::Storage(StorageFailure::Other(description)) => answer
                    == AppError::DatabaseError(description),
                ReorderError::UnexpectedEvent => answer.kind() == ErrorKind::Internal
                    && answer.text() == "Storage answered out of turn"@,
            },
    {
        match error {
            ReorderError::CollectionNotFound => AppError::NotFound(missing_board_message(board_id)),
            ReorderError::Validation(violation) => AppError::ValidationError(
                violation_message(violation),
            ),
            ReorderError::ConcurrentModification => AppError::Conflict(
                String::from_str(
                    "Failed to update column order due to concurrent modifications. Please try again.",
                ),
            ),
            ReorderError::Storage(failure) => AppError::from_storage(failure),
            ReorderError::UnexpectedEvent => AppError::InternalError(
                String::from_str("Storage answered out of turn"),
            ),
        }
    }

    /// The failure with which a refused deletion of a column is answered:
    /// a column that does not exist is not found.
    pub fn from_delete(error: DeleteError) -> (answer: AppError)
        ensures
            match error {
                DeleteError::MemberNotFound => answer.kind() == ErrorKind::NotFound
                    && answer.text() == "Column not found"@,
                DeleteError::Storage(StorageFailure::RowNotFound) => answer.kind()
                    == ErrorKind::NotFound && answer.text() == "Resource not found"@,
                DeleteError::Storage(StorageFailure::Other(description)) => answer
                    == AppError::DatabaseError(description),
                DeleteError::UnexpectedEvent => answer.kind() == ErrorKind::Internal
                    && answer.text() == "Storage answered out of turn"@,
            },
    {
        match error {
            DeleteError::MemberNotFound => AppError::NotFound(String::from_str("Column not found")),
            DeleteError::Storage(failure) => AppError::from_storage(failure),
            DeleteError::UnexpectedEvent => AppError::InternalError(
                String::from_str("Storage answered out of turn"),
            ),
        }
    }
}

} // verus!
