use task_board::errors::{AppError, StorageFailure};
use task_board::handlers::columns::update_column;
use task_board::models::card::Card;
use task_board::models::column::{BoardColumn, UpdateColumnRequest};
use task_board::ordering::delete::DeleteError;
use task_board::ordering::engine::{bulk_update_column_order, delete_column};
use task_board::ordering::reorder::ReorderError;
use task_board::ordering::store::ColumnStore;
use task_board::ordering::validator::{
    BulkColumnOrderUpdate, ColumnOrderUpdate, OrderViolation,
};

const A: i32 = 101;
const B: i32 = 102;
const C: i32 = 103;
const D: i32 = 104;
const Z: i32 = 126;

fn column(id: i32, board_id: i32, position: i32) -> BoardColumn {
    BoardColumn {
        id,
        title: format!("column {}", id),
        board_id,
        position,
        created_at: 1_000,
        updated_at: 1_000,
    }
}

fn card(id: i32, list_id: i32) -> Card {
    Card {
        id,
        title: format!("card {}", id),
        description: None,
        list_id,
        position: 0,
        assignee_id: None,
        due_date: None,
        labels: vec![],
        created_at: 1_000,
        updated_at: 1_000,
    }
}

fn request(board_id: i32, entries: &[(i32, i32)]) -> BulkColumnOrderUpdate {
    BulkColumnOrderUpdate {
        board_id,
        columns: entries.iter().map(|e| ColumnOrderUpdate { id: e.0, position: e.1 }).collect(),
    }
}

fn four_columns() -> ColumnStore {
    ColumnStore {
        boards: vec![1, 2],
        columns: vec![
            column(A, 1, 0),
            column(B, 1, 1),
            column(C, 1, 2),
            column(D, 1, 3),
            column(201, 2, 0),
            column(202, 2, 1),
        ],
        cards: vec![card(1, A), card(2, B), card(3, B), card(4, D), card(5, 201)],
    }
}

fn placements(store: &ColumnStore, board_id: i32) -> Vec<(i32, i32)> {
    let mut found: Vec<(i32, i32)> = store
        .columns
        .iter()
        .filter(|c| c.board_id == board_id)
        .map(|c| (c.id, c.position))
        .collect();
    found.sort_by_key(|p| p.1);
    found
}

fn positions_are_dense(store: &ColumnStore, board_id: i32) -> bool {
    let found = placements(store, board_id);
    found.iter().enumerate().all(|(k, p)| p.1 == k as i32)
}

#[test]
fn cascade_renumber_after_deleting_b() {
    let mut store = four_columns();
    assert_eq!(delete_column(&mut store, B, 2_000), Ok(()));
    assert_eq!(placements(&store, 1), vec![(A, 0), (C, 1), (D, 2)]);
    assert!(store.cards.iter().all(|c| c.list_id != B));
    assert_eq!(store.cards.iter().map(|c| c.id).collect::<Vec<i32>>(), vec![1, 4, 5]);
    // The other board is untouched.
    assert_eq!(placements(&store, 2), vec![(201, 0), (202, 1)]);
    assert_eq!(store.boards, vec![1, 2]);
}

#[test]
fn deleting_marks_the_remaining_columns_of_the_board_as_changed() {
    let mut store = four_columns();
    assert_eq!(delete_column(&mut store, B, 2_000), Ok(()));
    for c in store.columns.iter() {
        if c.board_id == 1 {
            assert_eq!(c.updated_at, 2_000);
        } else {
            assert_eq!(c.updated_at, 1_000);
        }
        assert_eq!(c.created_at, 1_000);
    }
}

#[test]
fn deleting_repairs_gaps_and_ties_by_position_then_identifier() {
    let mut store = ColumnStore {
        boards: vec![1],
        columns: vec![column(5, 1, 7), column(3, 1, 7), column(9, 1, 2), column(4, 1, 40)],
        cards: vec![],
    };
    assert_eq!(delete_column(&mut store, 4, 2_000), Ok(()));
    assert_eq!(placements(&store, 1), vec![(9, 0), (3, 1), (5, 2)]);
}

#[test]
fn deleting_a_missing_column_is_refused_and_changes_nothing() {
    let mut store = four_columns();
    let before = store.clone();
    assert_eq!(delete_column(&mut store, Z, 2_000), Err(DeleteError::MemberNotFound));
    assert_eq!(store, before);
}

#[test]
fn deleting_the_last_column_leaves_an_empty_board() {
    let mut store = ColumnStore { boards: vec![1], columns: vec![column(A, 1, 0)], cards: vec![card(1, A)] };
    assert_eq!(delete_column(&mut store, A, 2_000), Ok(()));
    assert!(store.columns.is_empty());
    assert!(store.cards.is_empty());
    assert_eq!(delete_column(&mut store, A, 3_000), Err(DeleteError::MemberNotFound));
}

#[test]
fn empty_board_and_empty_payload_is_a_no_op() {
    let mut store = ColumnStore { boards: vec![7], columns: vec![column(A, 1, 0)], cards: vec![] };
    let before = store.clone();
    assert_eq!(bulk_update_column_order(&mut store, &request(7, &[]), 2_000), Ok(vec![]));
    assert_eq!(store, before);
}

#[test]
fn foreign_identifier_is_rejected_as_a_set_mismatch() {
    let mut store = ColumnStore {
        boards: vec![1, 2],
        columns: vec![column(A, 1, 0), column(B, 1, 1), column(Z, 2, 0)],
        cards: vec![],
    };
    let before = store.clone();
    assert_eq!(
        bulk_update_column_order(&mut store, &request(1, &[(A, 0), (Z, 1)]), 2_000),
        Err(ReorderError::Validation(OrderViolation::SetMismatch))
    );
    assert_eq!(store, before);
}

#[test]
fn reordering_a_missing_board_is_refused() {
    let mut store = four_columns();
    let before = store.clone();
    assert_eq!(
        bulk_update_column_order(&mut store, &request(9, &[(A, 0)]), 2_000),
        Err(ReorderError::CollectionNotFound)
    );
    assert_eq!(store, before);
}

#[test]
fn each_violation_is_surfaced_unchanged_and_nothing_is_written() {
    let cases: Vec<(Vec<(i32, i32)>, OrderViolation)> = vec![
        (vec![], OrderViolation::EmptyPayload),
        (vec![(A, 0), (B, 1), (C, 2), (D, -3)], OrderViolation::NonNegativeViolation),
        (vec![(A, 0), (B, 1), (C, 2)], OrderViolation::CountMismatch),
        (vec![(A, 0), (B, 1), (C, 2), (201, 3)], OrderViolation::SetMismatch),
        (vec![(A, 0), (B, 1), (C, 2), (D, 2)], OrderViolation::DuplicatePosition),
        (vec![(A, 0), (B, 1), (C, 2), (D, 4)], OrderViolation::NonContiguousRange),
    ];
    for (entries, violation) in cases {
        let mut store = four_columns();
        let before = store.clone();
        assert_eq!(
            bulk_update_column_order(&mut store, &request(1, &entries), 2_000),
            Err(ReorderError::Validation(violation))
        );
        assert_eq!(store, before);
    }
}

#[test]
fn reordering_writes_the_positions_and_returns_the_board_in_order() {
    let mut store = four_columns();
    let outcome =
        bulk_update_column_order(&mut store, &request(1, &[(D, 0), (A, 3), (C, 1), (B, 2)]), 2_000);
    let columns = outcome.unwrap();
    assert_eq!(
        columns.iter().map(|c| (c.id, c.position)).collect::<Vec<(i32, i32)>>(),
        vec![(D, 0), (C, 1), (B, 2), (A, 3)]
    );
    assert!(columns.iter().all(|c| c.board_id == 1 && c.updated_at == 2_000));
    assert_eq!(columns[0].title, "column 104");
    assert_eq!(placements(&store, 1), vec![(D, 0), (C, 1), (B, 2), (A, 3)]);
    // The other board and the cards are untouched.
    assert_eq!(placements(&store, 2), vec![(201, 0), (202, 1)]);
    assert!(store.columns.iter().filter(|c| c.board_id == 2).all(|c| c.updated_at == 1_000));
    assert_eq!(store.cards, four_columns().cards);
}

#[test]
fn a_column_of_another_board_is_never_touched() {
    // Identifier 201 belongs to board 2: a payload for board 1 that names it
    // is refused, and its row keeps its position.
    let mut store = four_columns();
    let entries = [(A, 1), (B, 0), (C, 2), (201, 3)];
    assert!(bulk_update_column_order(&mut store, &request(1, &entries), 2_000).is_err());
    assert_eq!(placements(&store, 2), vec![(201, 0), (202, 1)]);
}

#[test]
fn reordering_is_idempotent() {
    let mut store = four_columns();
    let swap = request(1, &[(A, 1), (B, 0), (C, 3), (D, 2)]);
    let first = bulk_update_column_order(&mut store, &swap, 2_000).unwrap();
    let after_first = placements(&store, 1);
    let second = bulk_update_column_order(&mut store, &swap, 3_000).unwrap();
    assert_eq!(placements(&store, 1), after_first);
    assert_eq!(
        first.iter().map(|c| (c.id, c.position)).collect::<Vec<(i32, i32)>>(),
        second.iter().map(|c| (c.id, c.position)).collect::<Vec<(i32, i32)>>()
    );
}

#[test]
fn submitting_the_current_order_leaves_positions_unchanged() {
    let mut store = four_columns();
    let current = request(1, &[(A, 0), (B, 1), (C, 2), (D, 3)]);
    assert!(bulk_update_column_order(&mut store, &current, 2_000).is_ok());
    assert_eq!(placements(&store, 1), vec![(A, 0), (B, 1), (C, 2), (D, 3)]);
}

#[test]
fn positions_stay_dense_through_a_sequence_of_operations() {
    let mut store = four_columns();
    assert!(positions_are_dense(&store, 1));
    assert!(bulk_update_column_order(&mut store, &request(1, &[(A, 3), (B, 2), (C, 1), (D, 0)]), 10).is_ok());
    assert!(positions_are_dense(&store, 1));
    assert_eq!(delete_column(&mut store, C, 20), Ok(()));
    assert!(positions_are_dense(&store, 1));
    assert_eq!(placements(&store, 1), vec![(D, 0), (B, 1), (A, 2)]);
    // A refused request changes nothing.
    assert!(bulk_update_column_order(&mut store, &request(1, &[(A, 0), (B, 1), (C, 2)]), 30).is_err());
    assert!(positions_are_dense(&store, 1));
    assert!(bulk_update_column_order(&mut store, &request(1, &[(A, 0), (B, 1), (D, 2)]), 40).is_ok());
    assert_eq!(placements(&store, 1), vec![(A, 0), (B, 1), (D, 2)]);
    assert_eq!(delete_column(&mut store, A, 50), Ok(()));
    assert_eq!(delete_column(&mut store, D, 60), Ok(()));
    assert_eq!(placements(&store, 1), vec![(B, 0)]);
    assert_eq!(delete_column(&mut store, B, 70), Ok(()));
    assert_eq!(placements(&store, 1), vec![]);
    assert!(positions_are_dense(&store, 2));
    assert_eq!(placements(&store, 2), vec![(201, 0), (202, 1)]);
}

#[test]
fn storage_failure_is_a_kind_of_its_own() {
    let failure = ReorderError::Storage(StorageFailure::Other("connection reset".to_string()));
    assert_ne!(failure, ReorderError::ConcurrentModification);
    assert_ne!(failure, ReorderError::CollectionNotFound);
    assert_ne!(
        DeleteError::Storage(StorageFailure::RowNotFound),
        DeleteError::MemberNotFound
    );
}

#[test]
fn store_operations_answer_as_the_statements_do() {
    let mut store = four_columns();
    assert!(store.board_exists(1));
    assert!(!store.board_exists(3));
    assert_eq!(store.column_ids(1), vec![A, B, C, D]);
    assert_eq!(store.column_ids(3), Vec::<i32>::new());
    assert_eq!(store.column_board(C), Some(1));
    assert_eq!(store.column_board(Z), None);
    assert_eq!(store.rank_of(1, 2), 2);
    assert_eq!(store.delete_cards_of(B), 2);
    assert_eq!(store.delete_cards_of(B), 0);
    assert_eq!(store.delete_column_row(B), 1);
    assert_eq!(store.delete_column_row(B), 0);
    assert_eq!(store.renumber(1, 5), 3);
    assert_eq!(placements(&store, 1), vec![(A, 0), (C, 1), (D, 2)]);
    let updates = vec![ColumnOrderUpdate { id: A, position: 9 }, ColumnOrderUpdate { id: 201, position: 8 }];
    // Only the column of board 1 is written: 201 belongs to board 2.
    assert_eq!(store.write_positions(1, &updates, 6), 1);
    assert_eq!(store.column_board(201), Some(2));
    assert_eq!(placements(&store, 2), vec![(201, 0), (202, 1)]);
    let ordered = store.columns_in_order(1);
    assert_eq!(ordered.iter().map(|c| c.id).collect::<Vec<i32>>(), vec![C, D, A]);
    assert!(ColumnStore::new().columns.is_empty());
}

#[test]
fn a_store_is_well_formed_when_no_identifier_is_used_twice() {
    assert!(ColumnStore::new().is_well_formed());
    assert!(four_columns().is_well_formed());
    let mut store = four_columns();
    store.columns.push(column(A, 2, 9));
    assert!(!store.is_well_formed());
}

fn change(title: Option<&str>, board_id: Option<i32>, position: Option<i32>) -> UpdateColumnRequest {
    UpdateColumnRequest { title: title.map(|t| t.to_string()), board_id, position }
}

#[test]
fn a_column_update_changes_the_title_and_nothing_of_the_order() {
    let mut store = four_columns();
    let column = update_column(&mut store, B, change(Some("Testing"), None, Some(1)), 2_000).unwrap();
    assert_eq!((column.id, column.title.as_str(), column.board_id, column.position), (B, "Testing", 1, 1));
    assert_eq!(column.updated_at, 2_000);
    assert_eq!(column.created_at, 1_000);
    assert_eq!(placements(&store, 1), vec![(A, 0), (B, 1), (C, 2), (D, 3)]);
    assert_eq!(placements(&store, 2), vec![(201, 0), (202, 1)]);
    assert_eq!(store.columns[1], column);
    assert!(store.columns.iter().filter(|c| c.id != B).all(|c| c.updated_at == 1_000));
}

#[test]
fn a_column_update_that_asks_for_another_position_is_refused() {
    let mut store = four_columns();
    let before = store.clone();
    for position in [0, 2, 3, 4, -1].iter() {
        assert_eq!(
            update_column(&mut store, B, change(Some("Testing"), None, Some(*position)), 2_000),
            Err(AppError::ValidationError(
                "Position can only be changed by reordering the columns of the board".to_string()
            ))
        );
        assert_eq!(store, before);
    }
}

#[test]
fn a_column_moved_to_another_board_goes_to_its_end_and_leaves_no_gap() {
    let mut store = four_columns();
    let column = update_column(&mut store, B, change(None, Some(2), None), 2_000).unwrap();
    assert_eq!((column.id, column.board_id, column.position), (B, 2, 2));
    assert_eq!(column.title, "column 102");
    assert_eq!(placements(&store, 1), vec![(A, 0), (C, 1), (D, 2)]);
    assert_eq!(placements(&store, 2), vec![(201, 0), (202, 1), (B, 2)]);
    assert!(positions_are_dense(&store, 1) && positions_are_dense(&store, 2));
    // The cards stay with their column.
    assert_eq!(store.cards, four_columns().cards);
}

#[test]
fn a_column_moved_to_an_empty_board_stands_first() {
    let mut store = four_columns();
    store.boards.push(3);
    let column = update_column(&mut store, D, change(Some("Moved"), Some(3), Some(3)), 2_000).unwrap();
    assert_eq!((column.board_id, column.position, column.title.as_str()), (3, 0, "Moved"));
    assert_eq!(placements(&store, 1), vec![(A, 0), (B, 1), (C, 2)]);
    assert_eq!(placements(&store, 3), vec![(D, 0)]);
}

#[test]
fn a_column_update_is_refused_in_the_order_title_column_board_position() {
    let mut store = four_columns();
    let before = store.clone();
    assert_eq!(
        update_column(&mut store, Z, change(Some(" "), Some(9), Some(7)), 2_000),
        Err(AppError::ValidationError("Title is required".to_string()))
    );
    assert_eq!(
        update_column(&mut store, Z, change(Some("x"), Some(9), Some(7)), 2_000),
        Err(AppError::NotFound("Resource not found".to_string()))
    );
    assert_eq!(
        update_column(&mut store, B, change(Some("x"), Some(9), Some(7)), 2_000),
        Err(AppError::NotFound("Board with id 9 not found".to_string()))
    );
    assert_eq!(
        update_column(&mut store, B, change(Some("x"), Some(2), Some(7)), 2_000),
        Err(AppError::ValidationError(
            "Position can only be changed by reordering the columns of the board".to_string()
        ))
    );
    assert_eq!(store, before);
}

#[test]
fn the_highest_position_of_a_board_is_found() {
    let store = four_columns();
    assert_eq!(store.highest_on_board(1), Some(3));
    assert_eq!(store.highest_on_board(2), Some(1));
    assert_eq!(store.highest_on_board(3), None);
    assert_eq!(store.column_place(C), Some(2));
    assert_eq!(store.column_place(Z), None);
}
