//! What each request decides before and after it reaches the tables.

pub mod auth;
pub mod boards;
pub mod cards;
pub mod columns;
pub mod columns_bulk;

use vstd::prelude::*;
use crate::errors::{AppError, ErrorKind};
use crate::text::{blank, is_blank};

verus! {

/// Accepts a title unless it holds nothing but white space.
pub fn check_title(title: &str) -> (outcome: Result<(), AppError>)
    ensures
        match outcome {
            Ok(()) => !blank(title@),
            Err(error) => blank(title@) && error.kind() == ErrorKind::Validation && error.text()
                == "Title is required"@,
        },
{
    if is_blank(title) {
        Err(AppError::ValidationError(String::from_str("Title is required")))
    } else {
        Ok(())
    }
}

} // verus!
