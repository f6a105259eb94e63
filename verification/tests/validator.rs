use task_board::ordering::validator::{validate_order, ColumnOrderUpdate, OrderViolation};

fn entry(id: i32, position: i32) -> ColumnOrderUpdate {
    ColumnOrderUpdate { id, position }
}

#[test]
fn empty_board_and_empty_payload_are_valid() {
    assert_eq!(validate_order(&vec![], &vec![]), Ok(()));
}

#[test]
fn empty_payload_for_a_board_with_columns_is_rejected() {
    assert_eq!(validate_order(&vec![1, 2], &vec![]), Err(OrderViolation::EmptyPayload));
}

#[test]
fn negative_position_is_rejected() {
    let payload = vec![entry(1, 0), entry(2, -1)];
    assert_eq!(validate_order(&vec![1, 2], &payload), Err(OrderViolation::NonNegativeViolation));
}

#[test]
fn negative_position_is_reported_before_a_count_mismatch() {
    let payload = vec![entry(1, -5)];
    assert_eq!(validate_order(&vec![1, 2], &payload), Err(OrderViolation::NonNegativeViolation));
}

#[test]
fn missing_column_is_a_count_mismatch() {
    let payload = vec![entry(1, 0)];
    assert_eq!(validate_order(&vec![1, 2], &payload), Err(OrderViolation::CountMismatch));
}

#[test]
fn extra_column_is_a_count_mismatch() {
    let payload = vec![entry(1, 0), entry(2, 1), entry(3, 2)];
    assert_eq!(validate_order(&vec![1, 2], &payload), Err(OrderViolation::CountMismatch));
}

#[test]
fn payload_for_a_board_without_columns_is_a_count_mismatch() {
    let payload = vec![entry(1, 0)];
    assert_eq!(validate_order(&vec![], &payload), Err(OrderViolation::CountMismatch));
}

#[test]
fn foreign_identifier_is_a_set_mismatch() {
    // Columns {A, B} = {1, 2}; the payload names {A, Z} = {1, 26}.
    let payload = vec![entry(1, 0), entry(26, 1)];
    assert_eq!(validate_order(&vec![1, 2], &payload), Err(OrderViolation::SetMismatch));
}

#[test]
fn repeated_identifier_is_a_set_mismatch() {
    let payload = vec![entry(1, 0), entry(1, 1)];
    assert_eq!(validate_order(&vec![1, 2], &payload), Err(OrderViolation::SetMismatch));
}

#[test]
fn duplicate_position_is_rejected() {
    let payload = vec![entry(1, 0), entry(2, 0)];
    assert_eq!(validate_order(&vec![1, 2], &payload), Err(OrderViolation::DuplicatePosition));
}

#[test]
fn positions_with_a_gap_are_rejected() {
    let payload = vec![entry(1, 0), entry(2, 2)];
    assert_eq!(validate_order(&vec![1, 2], &payload), Err(OrderViolation::NonContiguousRange));
}

#[test]
fn positions_that_start_above_zero_are_rejected() {
    let payload = vec![entry(1, 1), entry(2, 2)];
    assert_eq!(validate_order(&vec![1, 2], &payload), Err(OrderViolation::NonContiguousRange));
}

#[test]
fn set_mismatch_is_reported_before_duplicate_positions() {
    let payload = vec![entry(1, 0), entry(9, 0)];
    assert_eq!(validate_order(&vec![1, 2], &payload), Err(OrderViolation::SetMismatch));
}

#[test]
fn every_permutation_of_three_columns_is_accepted() {
    let existing = vec![30, 10, 20];
    let orders = [[0, 1, 2], [0, 2, 1], [1, 0, 2], [1, 2, 0], [2, 0, 1], [2, 1, 0]];
    for order in orders.iter() {
        let payload = vec![entry(10, order[0]), entry(20, order[1]), entry(30, order[2])];
        assert_eq!(validate_order(&existing, &payload), Ok(()));
    }
}

#[test]
fn payload_in_another_order_than_the_table_is_accepted() {
    // The identifiers are compared after sorting: an unsorted comparison
    // would report a mismatch here.
    let existing = vec![3, 1, 2];
    let payload = vec![entry(2, 2), entry(3, 0), entry(1, 1)];
    assert_eq!(validate_order(&existing, &payload), Ok(()));
}

#[test]
fn unsorted_dense_positions_are_accepted() {
    // The positions are examined after sorting: examined as submitted,
    // the first would not be zero and the last not n - 1.
    let payload = vec![entry(1, 2), entry(2, 0), entry(3, 3), entry(4, 1)];
    assert_eq!(validate_order(&vec![1, 2, 3, 4], &payload), Ok(()));
}

#[test]
fn mutations_of_a_legal_ordering_are_rejected_with_the_matching_kind() {
    let existing = vec![1, 2, 3];
    let legal = vec![entry(1, 2), entry(2, 0), entry(3, 1)];
    assert_eq!(validate_order(&existing, &legal), Ok(()));

    let mut duplicated = legal.clone();
    duplicated[0].position = duplicated[1].position;
    assert_eq!(validate_order(&existing, &duplicated), Err(OrderViolation::DuplicatePosition));

    let mut omitted = legal.clone();
    omitted.remove(1);
    assert_eq!(validate_order(&existing, &omitted), Err(OrderViolation::CountMismatch));

    let mut foreign = legal.clone();
    foreign[2].id = 99;
    assert_eq!(validate_order(&existing, &foreign), Err(OrderViolation::SetMismatch));

    let mut gapped = legal.clone();
    gapped[0].position = 7;
    assert_eq!(validate_order(&existing, &gapped), Err(OrderViolation::NonContiguousRange));
}
