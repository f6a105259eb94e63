//! Creating, changing and deleting cards.

use vstd::prelude::*;
use crate::errors::{AppError, ErrorKind};
use crate::models::card::{Card, UpdateCardRequest};

verus! {

/// What a changed card holds: each field that the request sets, and the
/// current value of each field that it does not.
pub struct CardChange {
    pub title: String,
    pub description: Option<String>,
    pub list_id: i32,
    pub position: i32,
    pub assignee_id: Option<String>,
    pub due_date: Option<i64>,
    pub labels: Vec<String>,
}

/// The values to write for a change to `current`: those that `request`
/// sets, and those of `current` otherwise.
pub fn merge_card_update(current: Card, request: UpdateCardRequest) -> (change: CardChange)
    ensures
        change.title == match request.title {
            Some(title) => title,
            None => current.title,
        },
        change.description == match request.description {
            Some(description) => Some(description),
            None => current.description,
        },
        change.list_id == match request.list_id {
            Some(list_id) => list_id,
            None => current.list_id,
        },
        change.position == match request.position {
            Some(position) => position,
            None => current.position,
        },
        change.assignee_id == match request.assignee_id {
            Some(assignee_id) => Some(assignee_id),
            None => current.assignee_id,
        },
        change.due_date == match request.due_date {
            Some(due_date) => Some(due_date),
            None => current.due_date,
        },
        change.labels == match request.labels {
            Some(labels) => labels,
            None => current.labels,
        },
{
    CardChange {
        title: match request.title {
            Some(title) => title,
            None => current.title,
        },
        description: match request.description {
            Some(description) => Some(description),
            None => current.description,
        },
        list_id: match request.list_id {
            Some(list_id) => list_id,
            None => current.list_id,
        },
        position: match request.position {
            Some(position) => position,
            None => current.position,
        },
        assignee_id: match request.assignee_id {
            Some(assignee_id) => Some(assignee_id),
            None => current.assignee_id,
        },
        due_date: match request.due_date {
            Some(due_date) => Some(due_date),
            None => current.due_date,
        },
        labels: match request.labels {
            Some(labels) => labels,
            None => current.labels,
        },
    }
}

/// Accepts the deletion of a card if it deleted a row.
pub fn require_card_deleted(rows: u64) -> (outcome: Result<(), AppError>)
    ensures
        match outcome {
            Ok(()) => rows != 0,
            Err(error) => rows == 0 && error.kind() == ErrorKind::NotFound && error.text()
                == "Card not found"@,
        },
{
    if rows == 0 {
        Err(AppError::NotFound(String::from_str("Card not found")))
    } else {
        Ok(())
    }
}

} // verus!
