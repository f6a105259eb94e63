//! Reordering and cascade deletion over the columns of a board.

pub mod delete;
pub mod density;
pub mod engine;
pub mod laws;
pub mod reorder;
pub mod sorting;
pub mod statement;
pub mod store;
pub mod validator;
