//! Creating, changing and deleting boards.

use vstd::prelude::*;
use crate::errors::{AppError, ErrorKind};
use crate::models::board::UpdateBoardRequest;
use crate::text::{blank, is_blank};

verus! {

/// The statement that changes a board, and which of the request's fields
/// are bound to it. Parameters are numbered in the order title,
/// description, identifier, without those that the request leaves out.
#[derive(Debug, Clone, PartialEq, Eq)]
pub struct BoardUpdate {
    pub sql: String,
    pub binds_title: bool,
    pub binds_description: bool,
}

/// The text that follows the parameter of the identifier.
pub open spec fn board_update_tail() -> Seq<char> {
    " RETURNING id, title, description, owner_id, members, created_at, updated_at"@
}

/// The text of the statement that sets the title, the description, or
/// both.
pub open spec fn board_update_sql(sets_title: bool, sets_description: bool) -> Seq<char> {
    if sets_title && sets_description {
        "UPDATE board SET title = $1, description = $2, updated_at = NOW() WHERE id = $3"@
            + board_update_tail()
    } else if sets_title {
        "UPDATE board SET title = $1, updated_at = NOW() WHERE id = $2"@ + board_update_tail()
    } else {
        "UPDATE board SET description = $1, updated_at = NOW() WHERE id = $2"@
            + board_update_tail()
    }
}

/// Why a change to a board is refused, if it is: a title that holds
/// nothing but white space first, then a request that sets no field.
pub open spec fn board_update_refusal(request: UpdateBoardRequest) -> Option<Seq<char>> {
    if request.title matches Some(title) && blank(title@) {
        Some("Title cannot be empty"@)
    } else if request.title.is_none() && request.description.is_none() {
        Some("No fields to update"@)
    } else {
        None
    }
}

/// The statement for the change that `request` asks for.
pub fn plan_board_update(request: &UpdateBoardRequest) -> (outcome: Result<BoardUpdate, AppError>)
    ensures
        match outcome {
            Ok(update) => {
                &&& board_update_refusal(*request).is_none()
                &&& update.binds_title == request.title.is_some()
                &&& update.binds_description == request.description.is_some()
                &&& update.sql@ == board_update_sql(
                    request.title.is_some(),
                    request.description.is_some(),
                )
            },
            Err(error) => {
                &&& error.kind() == ErrorKind::Validation
                &&& board_update_refusal(*request) == Some(error.text())
            },
        },
{
    let binds_title = match &request.title {
        Some(title) => {
            if is_blank(title.as_str()) {
                return Err(AppError::ValidationError(String::from_str("Title cannot be empty")));
            }
            true
        },
        None => false,
    };
    let binds_description = request.description.is_some();
    if !binds_title && !binds_description {
        return Err(AppError::ValidationError(String::from_str("No fields to update")));
    }
    let mut sql = if binds_title && binds_description {
        String::from_str(
            "UPDATE board SET title = $1, description = $2, updated_at = NOW() WHERE id = $3",
        )
    } else if binds_title {
        String::from_str("UPDATE board SET title = $1, updated_at = NOW() WHERE id = $2")
    } else {
        String::from_str("UPDATE board SET description = $1, updated_at = NOW() WHERE id = $2")
    };
    sql.append(" RETURNING id, title, description, owner_id, members, created_at, updated_at");
    Ok(BoardUpdate { sql, binds_title, binds_description })
}

/// Accepts the deletion of a board if it deleted a row.
pub fn require_board_deleted(rows: u64) -> (outcome: Result<(), AppError>)
    ensures
        match outcome {
            Ok(()) => rows != 0,
            Err(error) => rows == 0 && error.kind() == ErrorKind::NotFound && error.text()
                == "Board not found"@,
        },
{
    if rows == 0 {
        Err(AppError::NotFound(String::from_str("Board not found")))
    } else {
        Ok(())
    }
}

} // verus!
