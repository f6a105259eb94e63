use task_board::errors::{
    missing_board_message, violation_message, AppError, ErrorKind, StorageFailure,
};
use task_board::models::ApiResponse;
use task_board::ordering::delete::DeleteError;
use task_board::ordering::reorder::ReorderError;
use task_board::ordering::validator::OrderViolation;

#[test]
fn each_kind_of_failure_has_its_status() {
    let m = || "m".to_string();
    assert_eq!(AppError::DatabaseError(m()).status_code(), 500);
    assert_eq!(AppError::NotFound(m()).status_code(), 404);
    assert_eq!(AppError::ValidationError(m()).status_code(), 400);
    assert_eq!(AppError::Unauthorized(m()).status_code(), 401);
    assert_eq!(AppError::Conflict(m()).status_code(), 409);
    assert_eq!(AppError::InternalError(m()).status_code(), 500);
    assert_eq!(AppError::Conflict(m()).error_kind(), ErrorKind::Conflict);
    assert_eq!(AppError::DatabaseError(m()).error_kind(), ErrorKind::Database);
}

#[test]
fn a_failure_is_answered_with_its_status_and_message() {
    let (status, body) = AppError::NotFound("Column not found".to_string()).into_response_parts();
    assert_eq!(status, 404);
    assert_eq!(
        body,
        ApiResponse { success: false, data: None, error: Some("Column not found".to_string()), message: None }
    );
}

#[test]
fn a_database_failure_is_not_described_to_the_caller() {
    let (status, body) =
        AppError::DatabaseError("relation \"board\" does not exist".to_string()).into_response_parts();
    assert_eq!(status, 500);
    assert_eq!(body.error, Some("Database error occurred".to_string()));
    assert!(!body.success);
    let (status, body) = AppError::InternalError("boom".to_string()).into_response_parts();
    assert_eq!(status, 500);
    assert_eq!(body.error, Some("boom".to_string()));
}

#[test]
fn a_missing_row_is_not_found_and_other_storage_failures_are_database_errors() {
    assert_eq!(
        AppError::from_storage(StorageFailure::RowNotFound),
        AppError::NotFound("Resource not found".to_string())
    );
    assert_eq!(
        AppError::from_storage(StorageFailure::Other("pool timed out".to_string())),
        AppError::DatabaseError("pool timed out".to_string())
    );
}

#[test]
fn each_violation_has_its_message() {
    assert_eq!(violation_message(OrderViolation::EmptyPayload), "At least one column is required");
    assert_eq!(
        violation_message(OrderViolation::NonNegativeViolation),
        "Position values must be non-negative"
    );
    assert_eq!(
        violation_message(OrderViolation::CountMismatch),
        "Columns payload must include all columns for the board"
    );
    assert_eq!(
        violation_message(OrderViolation::SetMismatch),
        "Columns payload does not match board columns"
    );
    assert_eq!(
        violation_message(OrderViolation::DuplicatePosition),
        "Position values must be unique for all columns"
    );
    assert_eq!(
        violation_message(OrderViolation::NonContiguousRange),
        "Position values must form a contiguous range starting at 0"
    );
}

#[test]
fn a_missing_board_is_named_by_its_identifier() {
    assert_eq!(missing_board_message(42), "Board with id 42 not found");
    assert_eq!(missing_board_message(-7), "Board with id -7 not found");
    assert_eq!(missing_board_message(0), "Board with id 0 not found");
    assert_eq!(missing_board_message(i32::MIN), "Board with id -2147483648 not found");
}

#[test]
fn refused_reorderings_are_answered_by_kind() {
    assert_eq!(
        AppError::from_reorder(ReorderError::CollectionNotFound, 12),
        AppError::NotFound("Board with id 12 not found".to_string())
    );
    assert_eq!(
        AppError::from_reorder(ReorderError::Validation(OrderViolation::SetMismatch), 12),
        AppError::ValidationError("Columns payload does not match board columns".to_string())
    );
    let conflict = AppError::from_reorder(ReorderError::ConcurrentModification, 12);
    assert_eq!(
        conflict,
        AppError::Conflict(
            "Failed to update column order due to concurrent modifications. Please try again."
                .to_string()
        )
    );
    assert_eq!(conflict.status_code(), 409);
    assert_eq!(
        AppError::from_reorder(ReorderError::Storage(StorageFailure::Other("x".to_string())), 12),
        AppError::DatabaseError("x".to_string())
    );
    assert_eq!(
        AppError::from_reorder(ReorderError::UnexpectedEvent, 12).error_kind(),
        ErrorKind::Internal
    );
}

#[test]
fn refused_deletions_are_answered_by_kind() {
    assert_eq!(
        AppError::from_delete(DeleteError::MemberNotFound),
        AppError::NotFound("Column not found".to_string())
    );
    assert_eq!(
        AppError::from_delete(DeleteError::Storage(StorageFailure::RowNotFound)),
        AppError::NotFound("Resource not found".to_string())
    );
    assert_eq!(
        AppError::from_delete(DeleteError::UnexpectedEvent).status_code(),
        500
    );
}
