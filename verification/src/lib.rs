//! Ordered-collection engine of a task board: the columns of a board keep
//! dense zero-based positions under reordering and cascading deletion.

pub mod errors;
pub mod handlers;
pub mod models;
pub mod ordering;
pub mod text;
