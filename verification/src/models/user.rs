//! Users and what signing in exchanges.

use vstd::prelude::*;

verus! {

/// A user, as shown to callers. Times are microseconds since the Unix
/// epoch, UTC.
#[derive(Debug, Clone, PartialEq, Eq)]
pub struct User {
    pub id: i32,
    pub email: String,
    pub name: String,
    pub avatar_url: Option<String>,
    pub created_at: i64,
    pub updated_at: i64,
}

/// What a caller sends to open an account.
#[derive(Debug, Clone, PartialEq, Eq)]
pub struct RegisterRequest {
    pub email: String,
    pub password: String,
    pub name: String,
}

/// What a caller sends to sign in.
#[derive(Debug, Clone, PartialEq, Eq)]
pub struct LoginRequest {
    pub email: String,
    pub password: String,
}

/// The answer to a successful sign-in: a token and the user it stands for.
#[derive(Debug, Clone, PartialEq, Eq)]
pub struct AuthResponse {
    pub token: String,
    pub user: User,
}

/// What a token asserts: the user's identifier, the email, and the second
/// at which the token expires.
#[derive(Debug, Clone, PartialEq, Eq)]
pub struct Claims {
    pub sub: String,
    pub email: String,
    pub exp: usize,
}

} // verus!
