//! The records of the task board and the envelope that answers carry.

pub mod board;
pub mod card;
pub mod column;
pub mod user;

pub use board::{Board, CreateBoardRequest, UpdateBoardRequest};
pub use card::{Card, CreateCardRequest, UpdateCardRequest};
pub use column::{BoardColumn, CreateColumnRequest, UpdateColumnRequest};
pub use user::{AuthResponse, Claims, LoginRequest, RegisterRequest, User};

use vstd::prelude::*;

verus! {

/// The envelope of every answer: whether the call succeeded, and what it
/// has to show for it.
#[derive(Debug, Clone, PartialEq, Eq)]
pub struct ApiResponse<T> {
    pub success: bool,
    pub data: Option<T>,
    pub error: Option<String>,
    pub message: Option<String>,
}

impl<T> ApiResponse<T> {
    /// A successful answer that carries `data` and no message.
    pub fn success(data: T) -> (response: Self)
        ensures
            response == (ApiResponse { success: true, data: Some(data), error: None, message: None }),
    {
        ApiResponse { success: true, data: Some(data), error: None, message: None }
    }

    /// A successful answer that carries `data` and `message`.
    pub fn success_with_message(data: T, message: String) -> (response: Self)
        ensures
            response == (ApiResponse {
                success: true,
                data: Some(data),
                error: None,
                message: Some(message),
            }),
    {
        ApiResponse { success: true, data: Some(data), error: None, message: Some(message) }
    }

    /// A successful answer that carries only `message`.
    pub fn message_only(message: String) -> (response: Self)
        ensures
            response == (ApiResponse::<T> {
                success: true,
                data: None,
                error: None,
                message: Some(message),
            }),
    {
        ApiResponse { success: true, data: None, error: None, message: Some(message) }
    }
}

} // verus!
