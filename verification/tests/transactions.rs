use task_board::errors::StorageFailure;
use task_board::models::column::BoardColumn;
use task_board::ordering::delete::{
    delete_begin, delete_step, DeleteAction, DeleteError, DeleteEvent, DeleteState,
};
use task_board::ordering::engine::delete_column;
use task_board::ordering::reorder::{
    reorder_begin, reorder_step, ReorderAction, ReorderError, ReorderEvent, ReorderState,
};
use task_board::ordering::statement::{build_position_write, PositionWrite};
use task_board::ordering::store::ColumnStore;
use task_board::ordering::validator::{
    BulkColumnOrderUpdate, ColumnOrderUpdate, OrderViolation,
};

const X: i32 = 24;
const Y: i32 = 25;

fn row(id: i32, board_id: i32, position: i32) -> BoardColumn {
    BoardColumn { id, title: String::new(), board_id, position, created_at: 0, updated_at: 0 }
}

fn swap_request() -> BulkColumnOrderUpdate {
    BulkColumnOrderUpdate {
        board_id: 1,
        columns: vec![
            ColumnOrderUpdate { id: X, position: 1 },
            ColumnOrderUpdate { id: Y, position: 0 },
        ],
    }
}

fn two_columns() -> ColumnStore {
    ColumnStore { boards: vec![1], columns: vec![row(X, 1, 0), row(Y, 1, 1)], cards: vec![] }
}

#[test]
fn reorder_walks_through_check_load_write_read_commit() {
    let request = swap_request();
    let (state, action) = reorder_begin(&request);
    assert_eq!(state, ReorderState::CheckingBoard);
    assert_eq!(action, ReorderAction::CheckBoard(1));

    let (state, action) = reorder_step(&request, state, ReorderEvent::BoardChecked(true));
    assert_eq!(state, ReorderState::LoadingColumns);
    assert_eq!(action, ReorderAction::LoadColumnIds(1));

    let (state, action) = reorder_step(&request, state, ReorderEvent::ColumnsLoaded(vec![Y, X]));
    assert_eq!(state, ReorderState::Writing { expected: 2 });
    assert_eq!(action, ReorderAction::Write(build_position_write(1, &request.columns)));

    let (state, action) = reorder_step(&request, state, ReorderEvent::Written(2));
    assert_eq!(state, ReorderState::ReadingBack);
    assert_eq!(action, ReorderAction::ReadBack(1));

    let columns = vec![row(Y, 1, 0), row(X, 1, 1)];
    let (state, action) = reorder_step(&request, state, ReorderEvent::ReadBack(columns.clone()));
    assert_eq!(state, ReorderState::Finished);
    assert_eq!(action, ReorderAction::Commit(columns));
}

#[test]
fn concurrent_delete_is_detected_and_only_the_delete_is_stored() {
    let mut store = two_columns();
    let request = swap_request();

    // The reorder transaction reads the board while both columns exist.
    let (state, _) = reorder_begin(&request);
    let exists = store.board_exists(1);
    let (state, action) = reorder_step(&request, state, ReorderEvent::BoardChecked(exists));
    assert_eq!(action, ReorderAction::LoadColumnIds(1));
    let ids = store.column_ids(1);
    let (state, action) = reorder_step(&request, state, ReorderEvent::ColumnsLoaded(ids));
    let write = match action {
        ReorderAction::Write(write) => write,
        other => panic!("expected a write, got {:?}", other),
    };

    // Before its write, another transaction deletes Y and commits.
    assert_eq!(delete_column(&mut store, Y, 5), Ok(()));

    // The write runs inside the reorder transaction: on a copy that is
    // dropped when the transaction rolls back.
    let mut inside = store.clone();
    let rows = inside.run_position_write(&write, 6).unwrap();
    assert_eq!(rows, 1);
    let (state, action) = reorder_step(&request, state, ReorderEvent::Written(rows));
    assert_eq!(state, ReorderState::Finished);
    assert_eq!(action, ReorderAction::Abort(ReorderError::ConcurrentModification));

    // Only the delete is stored: X at position 0.
    assert_eq!(store.columns.len(), 1);
    assert_eq!((store.columns[0].id, store.columns[0].position), (X, 0));
}

#[test]
fn a_write_that_changes_more_rows_than_expected_is_a_conflict_too() {
    let request = swap_request();
    let (_, action) = reorder_step(&request, ReorderState::Writing { expected: 2 }, ReorderEvent::Written(3));
    assert_eq!(action, ReorderAction::Abort(ReorderError::ConcurrentModification));
}

#[test]
fn reorder_aborts_when_the_board_is_missing() {
    let request = swap_request();
    let (state, _) = reorder_begin(&request);
    let (state, action) = reorder_step(&request, state, ReorderEvent::BoardChecked(false));
    assert_eq!(state, ReorderState::Finished);
    assert_eq!(action, ReorderAction::Abort(ReorderError::CollectionNotFound));
}

#[test]
fn reorder_aborts_on_a_validation_failure_before_any_write() {
    let request = swap_request();
    let (state, action) =
        reorder_step(&request, ReorderState::LoadingColumns, ReorderEvent::ColumnsLoaded(vec![X, 77]));
    assert_eq!(state, ReorderState::Finished);
    assert_eq!(
        action,
        ReorderAction::Abort(ReorderError::Validation(OrderViolation::SetMismatch))
    );
}

#[test]
fn reorder_of_an_empty_board_commits_without_a_write() {
    let request = BulkColumnOrderUpdate { board_id: 4, columns: vec![] };
    let (state, action) = reorder_begin(&request);
    assert_eq!(action, ReorderAction::CheckBoard(4));
    let (state, action) = reorder_step(&request, state, ReorderEvent::BoardChecked(true));
    assert_eq!(action, ReorderAction::LoadColumnIds(4));
    let (state, action) = reorder_step(&request, state, ReorderEvent::ColumnsLoaded(vec![]));
    assert_eq!(state, ReorderState::Finished);
    assert_eq!(action, ReorderAction::Commit(vec![]));
}

#[test]
fn reorder_aborts_on_a_storage_failure_in_every_open_state() {
    let request = swap_request();
    let states = [
        ReorderState::CheckingBoard,
        ReorderState::LoadingColumns,
        ReorderState::Writing { expected: 2 },
        ReorderState::ReadingBack,
    ];
    for state in states.iter() {
        let failure = StorageFailure::Other("timeout".to_string());
        let (next, action) = reorder_step(&request, *state, ReorderEvent::Failed(failure.clone()));
        assert_eq!(next, ReorderState::Finished);
        assert_eq!(action, ReorderAction::Abort(ReorderError::Storage(failure)));
    }
}

#[test]
fn reorder_refuses_an_answer_out_of_turn() {
    let request = swap_request();
    let cases = vec![
        (ReorderState::CheckingBoard, ReorderEvent::Written(2)),
        (ReorderState::LoadingColumns, ReorderEvent::BoardChecked(true)),
        (ReorderState::Writing { expected: 2 }, ReorderEvent::ColumnsLoaded(vec![X, Y])),
        (ReorderState::ReadingBack, ReorderEvent::Written(2)),
        (ReorderState::CheckingBoard, ReorderEvent::ReadBack(vec![])),
        (ReorderState::Finished, ReorderEvent::BoardChecked(true)),
        (ReorderState::Finished, ReorderEvent::Failed(StorageFailure::RowNotFound)),
    ];
    for (state, event) in cases {
        let (next, action) = reorder_step(&request, state, event);
        assert_eq!(next, ReorderState::Finished);
        assert_eq!(action, ReorderAction::Abort(ReorderError::UnexpectedEvent));
    }
}

#[test]
fn delete_walks_through_lookup_cards_column_renumber_commit() {
    let (state, action) = delete_begin(X);
    assert_eq!(state, DeleteState::LookingUp);
    assert_eq!(action, DeleteAction::LookUp(X));
    let (state, action) = delete_step(X, state, DeleteEvent::LookedUp(Some(1)));
    assert_eq!(state, DeleteState::DeletingCards { board_id: 1 });
    assert_eq!(action, DeleteAction::DeleteCards(X));
    let (state, action) = delete_step(X, state, DeleteEvent::CardsDeleted(0));
    assert_eq!(state, DeleteState::DeletingColumn { board_id: 1 });
    assert_eq!(action, DeleteAction::DeleteColumn(X));
    let (state, action) = delete_step(X, state, DeleteEvent::ColumnDeleted(1));
    assert_eq!(state, DeleteState::Renumbering);
    assert_eq!(action, DeleteAction::Renumber(1));
    let (state, action) = delete_step(X, state, DeleteEvent::Renumbered(1));
    assert_eq!(state, DeleteState::Finished);
    assert_eq!(action, DeleteAction::Commit);
}

#[test]
fn delete_aborts_when_the_column_is_missing() {
    let (state, _) = delete_begin(X);
    let (state, action) = delete_step(X, state, DeleteEvent::LookedUp(None));
    assert_eq!(state, DeleteState::Finished);
    assert_eq!(action, DeleteAction::Abort(DeleteError::MemberNotFound));
}

#[test]
fn delete_that_removes_no_row_is_never_committed() {
    let state = DeleteState::DeletingColumn { board_id: 1 };
    let (state, action) = delete_step(X, state, DeleteEvent::ColumnDeleted(0));
    assert_eq!(state, DeleteState::Finished);
    assert_eq!(action, DeleteAction::Abort(DeleteError::MemberNotFound));
}

#[test]
fn delete_aborts_on_a_storage_failure_and_on_answers_out_of_turn() {
    let failure = StorageFailure::RowNotFound;
    let (state, action) = delete_step(X, DeleteState::Renumbering, DeleteEvent::Failed(failure.clone()));
    assert_eq!(state, DeleteState::Finished);
    assert_eq!(action, DeleteAction::Abort(DeleteError::Storage(failure)));
    let cases = vec![
        (DeleteState::LookingUp, DeleteEvent::CardsDeleted(1)),
        (DeleteState::DeletingCards { board_id: 1 }, DeleteEvent::ColumnDeleted(1)),
        (DeleteState::DeletingColumn { board_id: 1 }, DeleteEvent::Renumbered(1)),
        (DeleteState::Renumbering, DeleteEvent::LookedUp(Some(1))),
        (DeleteState::Finished, DeleteEvent::Renumbered(1)),
    ];
    for (state, event) in cases {
        let (next, action) = delete_step(X, state, event);
        assert_eq!(next, DeleteState::Finished);
        assert_eq!(action, DeleteAction::Abort(DeleteError::UnexpectedEvent));
    }
}

#[test]
fn the_write_statement_numbers_its_parameters_and_binds_values_in_order() {
    let updates = vec![
        ColumnOrderUpdate { id: 11, position: 1 },
        ColumnOrderUpdate { id: 12, position: 0 },
    ];
    let write = build_position_write(7, &updates);
    assert_eq!(
        write.sql,
        "UPDATE board_column AS bc SET position = v.position, updated_at = NOW() FROM (VALUES ($1, $2), ($3, $4)) AS v(id, position) WHERE bc.board_id = $5 AND bc.id = v.id"
    );
    assert_eq!(write.binds, vec![11, 1, 12, 0, 7]);
    assert_eq!(write.bound_values(), Some((7, updates)));
}

#[test]
fn the_write_statement_for_one_and_for_six_entries() {
    let one = build_position_write(3, &vec![ColumnOrderUpdate { id: 5, position: 0 }]);
    assert_eq!(
        one.sql,
        "UPDATE board_column AS bc SET position = v.position, updated_at = NOW() FROM (VALUES ($1, $2)) AS v(id, position) WHERE bc.board_id = $3 AND bc.id = v.id"
    );
    let six: Vec<ColumnOrderUpdate> =
        (0..6).map(|k| ColumnOrderUpdate { id: 100 + k, position: k }).collect();
    let write = build_position_write(-2, &six);
    assert!(write.sql.contains("($9, $10), ($11, $12)) AS v(id, position) WHERE bc.board_id = $13 AND"));
    assert_eq!(write.binds.len(), 13);
    assert_eq!(write.binds[12], -2);
    assert_eq!(write.binds[10], 105);
    assert_eq!(write.binds[11], 5);
}

#[test]
fn bound_values_need_pairs_and_a_board() {
    let malformed = PositionWrite { sql: String::new(), binds: vec![1, 2] };
    assert_eq!(malformed.bound_values(), None);
    let mut store = two_columns();
    let before = store.clone();
    assert_eq!(store.run_position_write(&malformed, 9), None);
    assert_eq!(store, before);
    let only_board = PositionWrite { sql: String::new(), binds: vec![1] };
    assert_eq!(only_board.bound_values(), Some((1, vec![])));
}
