//! Reordering the columns of a board in one request.

pub use crate::ordering::engine::bulk_update_column_order;
pub use crate::ordering::reorder::{
    reorder_begin, reorder_step, ReorderAction, ReorderError, ReorderEvent, ReorderState,
};
pub use crate::ordering::validator::{BulkColumnOrderUpdate, ColumnOrderUpdate};
