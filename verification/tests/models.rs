use task_board::models::ApiResponse;

#[test]
fn success_carries_data_and_no_message() {
    let response = ApiResponse::success(5);
    assert_eq!(response, ApiResponse { success: true, data: Some(5), error: None, message: None });
}

#[test]
fn success_with_message_carries_both() {
    let response = ApiResponse::success_with_message(vec![1, 2], "List created successfully".to_string());
    assert_eq!(
        response,
        ApiResponse {
            success: true,
            data: Some(vec![1, 2]),
            error: None,
            message: Some("List created successfully".to_string()),
        }
    );
}

#[test]
fn message_only_carries_no_data() {
    let response: ApiResponse<()> = ApiResponse::message_only("List deleted successfully".to_string());
    assert_eq!(
        response,
        ApiResponse {
            success: true,
            data: None,
            error: None,
            message: Some("List deleted successfully".to_string()),
        }
    );
}
