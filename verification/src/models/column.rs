//! Columns of a board.

use vstd::prelude::*;

verus! {

/// A column of a board, as stored. Times are microseconds since the Unix
/// epoch, UTC.
#[derive(Debug, Clone, PartialEq, Eq)]
pub struct BoardColumn {
    pub id: i32,
    pub title: String,
    pub board_id: i32,
    pub position: i32,
    pub created_at: i64,
    pub updated_at: i64,
}

/// What a caller sends to create a column.
#[derive(Debug, Clone, PartialEq, Eq)]
pub struct CreateColumnRequest {
    pub title: String,
    pub board_id: i32,
}

/// What a caller sends to change a column; an absent field keeps its value.
#[derive(Debug, Clone, PartialEq, Eq)]
pub struct UpdateColumnRequest {
    pub title: Option<String>,
    pub board_id: Option<i32>,
    pub position: Option<i32>,
}

impl BoardColumn {
    /// A copy of the column.
    pub fn duplicate(&self) -> (copy: BoardColumn)
        ensures
            copy == *self,
    {
        BoardColumn {
            id: self.id,
            title: self.title.clone(),
            board_id: self.board_id,
            position: self.position,
            created_at: self.created_at,
            updated_at: self.updated_at,
        }
    }
}

} // verus!
