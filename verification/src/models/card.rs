//! Cards: what a column holds.

use vstd::prelude::*;

verus! {

/// A card, as stored. It belongs to the column `list_id`. Times are
/// microseconds since the Unix epoch, UTC.
#[derive(Debug, Clone, PartialEq, Eq)]
pub struct Card {
    pub id: i32,
    pub title: String,
    pub description: Option<String>,
    pub list_id: i32,
    pub position: i32,
    pub assignee_id: Option<String>,
    pub due_date: Option<i64>,
    pub labels: Vec<String>,
    pub created_at: i64,
    pub updated_at: i64,
}

/// What a caller sends to create a card.
#[derive(Debug, Clone, PartialEq, Eq)]
pub struct CreateCardRequest {
    pub title: String,
    pub description: Option<String>,
    pub list_id: i32,
    pub assignee_id: Option<String>,
    pub due_date: Option<i64>,
    pub labels: Vec<String>,
}

/// What a caller sends to change a card; an absent field keeps its value.
#[derive(Debug, Clone, PartialEq, Eq)]
pub struct UpdateCardRequest {
    pub title: Option<String>,
    pub description: Option<String>,
    pub list_id: Option<i32>,
    pub position: Option<i32>,
    pub assignee_id: Option<String>,
    pub due_date: Option<i64>,
    pub labels: Option<Vec<String>>,
}

} // verus!
