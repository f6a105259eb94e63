//! Boards.

use vstd::prelude::*;

verus! {

/// A board, as stored. Times are microseconds since the Unix epoch, UTC.
#[derive(Debug, Clone, PartialEq, Eq)]
pub struct Board {
    pub id: i32,
    pub title: String,
    pub description: Option<String>,
    pub owner_id: Option<String>,
    pub members: Vec<String>,
    pub created_at: i64,
    pub updated_at: i64,
}

/// What a caller sends to create a board.
#[derive(Debug, Clone, PartialEq, Eq)]
pub struct CreateBoardRequest {
    pub title: String,
    pub description: Option<String>,
}

/// What a caller sends to change a board; an absent field keeps its value.
#[derive(Debug, Clone, PartialEq, Eq)]
pub struct UpdateBoardRequest {
    pub title: Option<String>,
    pub description: Option<String>,
}

} // verus!
