use task_board::errors::AppError;
use task_board::handlers::auth::{
    check_credentials, check_login, check_registration, extract_bearer_token, into_user,
    jwt_exp_hours, login_outcome, new_user, prepare_user, require_unregistered, require_user, token_claims,
    token_subject, AuthorizationHeader, UserAuthRow,
};
use task_board::handlers::boards::{plan_board_update, require_board_deleted};
use task_board::handlers::cards::{merge_card_update, require_card_deleted};
use task_board::handlers::check_title;
use task_board::handlers::columns::{
    check_column_update, next_position, plan_column_update, require_board,
};
use task_board::models::board::UpdateBoardRequest;
use task_board::models::card::{Card, UpdateCardRequest};
use task_board::models::column::{BoardColumn, UpdateColumnRequest};
use task_board::models::user::{Claims, LoginRequest, RegisterRequest, User};

fn validation(message: &str) -> AppError {
    AppError::ValidationError(message.to_string())
}

fn unauthorized(message: &str) -> AppError {
    AppError::Unauthorized(message.to_string())
}

fn stored_user(password_hash: &str) -> UserAuthRow {
    UserAuthRow {
        id: 9,
        email: "ada@example.com".to_string(),
        name: "Ada".to_string(),
        avatar_url: Some("a.png".to_string()),
        password_hash: password_hash.to_string(),
        created_at: 1,
        updated_at: 2,
    }
}

fn shown_user() -> User {
    User {
        id: 9,
        email: "ada@example.com".to_string(),
        name: "Ada".to_string(),
        avatar_url: Some("a.png".to_string()),
        created_at: 1,
        updated_at: 2,
    }
}

#[test]
fn a_title_of_white_space_is_refused() {
    assert_eq!(check_title("Backlog"), Ok(()));
    assert_eq!(check_title(" x "), Ok(()));
    assert_eq!(check_title(""), Err(validation("Title is required")));
    assert_eq!(check_title(" \t "), Err(validation("Title is required")));
}

#[test]
fn a_column_needs_its_board() {
    assert_eq!(require_board(true, 3), Ok(()));
    assert_eq!(
        require_board(false, 3),
        Err(AppError::NotFound("Board with id 3 not found".to_string()))
    );
}

#[test]
fn a_new_column_goes_after_the_highest_position() {
    assert_eq!(next_position(None), Some(0));
    assert_eq!(next_position(Some(0)), Some(1));
    assert_eq!(next_position(Some(41)), Some(42));
    assert_eq!(next_position(Some(-1)), Some(0));
    assert_eq!(next_position(Some(i32::MAX)), None);
}

fn doing() -> BoardColumn {
    BoardColumn {
        id: 1,
        title: "Doing".to_string(),
        board_id: 2,
        position: 3,
        created_at: 4,
        updated_at: 5,
    }
}

#[test]
fn a_column_update_keeps_what_it_does_not_set() {
    let nothing = UpdateColumnRequest { title: None, board_id: None, position: None };
    let change = plan_column_update(doing(), nothing, None).unwrap();
    assert_eq!((change.title.as_str(), change.board_id, change.position), ("Doing", 2, 3));
    assert_eq!(change.renumber, None);
    let title = UpdateColumnRequest { title: Some("Done".to_string()), board_id: Some(2), position: Some(3) };
    let change = plan_column_update(doing(), title, Some(9)).unwrap();
    assert_eq!((change.title.as_str(), change.board_id, change.position), ("Done", 2, 3));
    assert_eq!(change.renumber, None);
}

#[test]
fn a_column_update_may_not_give_another_position() {
    let refusal = Err(validation("Position can only be changed by reordering the columns of the board"));
    let moved = UpdateColumnRequest { title: Some("Done".to_string()), board_id: None, position: Some(0) };
    assert_eq!(plan_column_update(doing(), moved, None).map(|c| c.position), refusal);
    let both = UpdateColumnRequest { title: None, board_id: Some(8), position: Some(0) };
    assert_eq!(plan_column_update(doing(), both, Some(4)).map(|c| c.position), refusal);
}

#[test]
fn a_column_that_changes_board_goes_to_its_end_and_its_old_board_is_renumbered() {
    let to_eight = || UpdateColumnRequest { title: None, board_id: Some(8), position: None };
    let change = plan_column_update(doing(), to_eight(), Some(4)).unwrap();
    assert_eq!((change.title.as_str(), change.board_id, change.position), ("Doing", 8, 5));
    assert_eq!(change.renumber, Some(2));
    let change = plan_column_update(doing(), to_eight(), None).unwrap();
    assert_eq!((change.board_id, change.position, change.renumber), (8, 0, Some(2)));
    assert_eq!(
        plan_column_update(doing(), to_eight(), Some(i32::MAX)).map(|c| c.position),
        Err(AppError::InternalError("No position is left on the board".to_string()))
    );
}

#[test]
fn a_column_update_may_not_blank_the_title() {
    let blank = UpdateColumnRequest { title: Some("  ".to_string()), board_id: None, position: None };
    assert_eq!(check_column_update(&blank), Err(validation("Title is required")));
    let none = UpdateColumnRequest { title: None, board_id: Some(1), position: None };
    assert_eq!(check_column_update(&none), Ok(()));
    let some = UpdateColumnRequest { title: Some("x".to_string()), board_id: None, position: None };
    assert_eq!(check_column_update(&some), Ok(()));
}

#[test]
fn a_board_update_sets_the_fields_it_names() {
    let tail = " RETURNING id, title, description, owner_id, members, created_at, updated_at";
    let both = UpdateBoardRequest { title: Some("T".to_string()), description: Some("D".to_string()) };
    let update = plan_board_update(&both).unwrap();
    assert_eq!(
        update.sql,
        format!("UPDATE board SET title = $1, description = $2, updated_at = NOW() WHERE id = $3{}", tail)
    );
    assert!(update.binds_title && update.binds_description);
    let title = UpdateBoardRequest { title: Some("T".to_string()), description: None };
    let update = plan_board_update(&title).unwrap();
    assert_eq!(update.sql, format!("UPDATE board SET title = $1, updated_at = NOW() WHERE id = $2{}", tail));
    assert!(update.binds_title && !update.binds_description);
    let description = UpdateBoardRequest { title: None, description: Some(String::new()) };
    let update = plan_board_update(&description).unwrap();
    assert_eq!(
        update.sql,
        format!("UPDATE board SET description = $1, updated_at = NOW() WHERE id = $2{}", tail)
    );
    assert!(!update.binds_title && update.binds_description);
}

#[test]
fn a_board_update_is_refused_for_a_blank_title_or_no_field() {
    let blank = UpdateBoardRequest { title: Some(" ".to_string()), description: Some("D".to_string()) };
    assert_eq!(plan_board_update(&blank), Err(validation("Title cannot be empty")));
    let nothing = UpdateBoardRequest { title: None, description: None };
    assert_eq!(plan_board_update(&nothing), Err(validation("No fields to update")));
}

#[test]
fn a_deletion_that_removed_nothing_is_not_found() {
    assert_eq!(require_board_deleted(1), Ok(()));
    assert_eq!(require_board_deleted(0), Err(AppError::NotFound("Board not found".to_string())));
    assert_eq!(require_card_deleted(2), Ok(()));
    assert_eq!(require_card_deleted(0), Err(AppError::NotFound("Card not found".to_string())));
}

#[test]
fn a_card_update_keeps_what_it_does_not_set() {
    let current = Card {
        id: 1,
        title: "Write".to_string(),
        description: Some("draft".to_string()),
        list_id: 2,
        position: 3,
        assignee_id: None,
        due_date: Some(99),
        labels: vec!["a".to_string()],
        created_at: 4,
        updated_at: 5,
    };
    let nothing = UpdateCardRequest {
        title: None,
        description: None,
        list_id: None,
        position: None,
        assignee_id: None,
        due_date: None,
        labels: None,
    };
    let change = merge_card_update(current.clone(), nothing);
    assert_eq!(change.title, "Write");
    assert_eq!(change.description, Some("draft".to_string()));
    assert_eq!((change.list_id, change.position), (2, 3));
    assert_eq!(change.assignee_id, None);
    assert_eq!(change.due_date, Some(99));
    assert_eq!(change.labels, vec!["a".to_string()]);
    let all = UpdateCardRequest {
        title: Some("Edit".to_string()),
        description: Some("final".to_string()),
        list_id: Some(7),
        position: Some(0),
        assignee_id: Some("u1".to_string()),
        due_date: Some(100),
        labels: Some(vec![]),
    };
    let change = merge_card_update(current, all);
    assert_eq!(change.title, "Edit");
    assert_eq!(change.description, Some("final".to_string()));
    assert_eq!((change.list_id, change.position), (7, 0));
    assert_eq!(change.assignee_id, Some("u1".to_string()));
    assert_eq!(change.due_date, Some(100));
    assert!(change.labels.is_empty());
}

#[test]
fn a_registration_is_checked_name_first() {
    let request = |name: &str, email: &str, password: &str| RegisterRequest {
        email: email.to_string(),
        password: password.to_string(),
        name: name.to_string(),
    };
    assert_eq!(check_registration(&request(" ", " ", "")), Err(validation("Name is required")));
    assert_eq!(check_registration(&request("Ada", "\t", "")), Err(validation("Email is required")));
    assert_eq!(
        check_registration(&request("Ada", "a@b.c", "1234567")),
        Err(validation("Password must be at least 8 characters"))
    );
    assert_eq!(check_registration(&request("Ada", "  A@b.c ", "12345678")), Ok("A@b.c".to_string()));
    // Eight bytes, four characters.
    assert_eq!(
        check_registration(&request("Ada", "a@b.c", "\u{00e9}\u{00e9}\u{00e9}\u{00e9}")),
        Ok("a@b.c".to_string())
    );
}

#[test]
fn an_email_is_registered_once() {
    assert_eq!(require_unregistered(0), Ok(()));
    assert_eq!(
        require_unregistered(1),
        Err(AppError::Conflict("Email already registered".to_string()))
    );
}

#[test]
fn a_user_is_stored_unless_the_password_could_not_be_hashed() {
    let user = new_user("ada@example.com".to_string(), "Ada".to_string(), Some("hash".to_string()))
        .unwrap();
    assert_eq!(user.email, "ada@example.com");
    assert_eq!(user.name, "Ada");
    assert_eq!(user.password_hash, "hash");
    assert_eq!(
        new_user("ada@example.com".to_string(), "Ada".to_string(), None),
        Err(AppError::InternalError("Failed to hash password".to_string()))
    );
}

#[test]
fn a_prepared_user_holds_a_hash_that_verifies() {
    let request = RegisterRequest {
        email: "  Ada@Example.COM ".to_string(),
        password: "correct horse".to_string(),
        name: "  Ada Lovelace ".to_string(),
    };
    assert_eq!(
        prepare_user(&request, 2),
        Err(AppError::Conflict("Email already registered".to_string()))
    );
    let user = prepare_user(&request, 0).unwrap();
    assert_eq!(user.email, "ada@example.com");
    assert_eq!(user.name, "Ada Lovelace");
    assert_ne!(user.password_hash, "correct horse");
    assert!(user.password_hash.starts_with("$2"));
    assert_eq!(check_credentials("correct horse", Some(stored_user(&user.password_hash))), Ok(shown_user()));
    assert_eq!(
        check_credentials("wrong horse", Some(stored_user(&user.password_hash))),
        Err(unauthorized("Invalid email or password"))
    );
}

#[test]
fn a_sign_in_needs_an_email_and_a_password() {
    let request = |email: &str, password: &str| LoginRequest {
        email: email.to_string(),
        password: password.to_string(),
    };
    assert_eq!(
        check_login(&request("  ", "secret")),
        Err(validation("Email and password are required"))
    );
    assert_eq!(
        check_login(&request("a@b.c", "")),
        Err(validation("Email and password are required"))
    );
    assert_eq!(check_login(&request(" a@b.c ", " ")), Ok("a@b.c".to_string()));
}

#[test]
fn a_sign_in_is_refused_without_saying_why() {
    let refusal = Err(unauthorized("Invalid email or password"));
    assert_eq!(check_credentials("secret", None), refusal);
    assert_eq!(check_credentials("secret", Some(stored_user("not a hash"))), refusal);
    assert_eq!(login_outcome(stored_user("h"), Some(false)), refusal);
    assert_eq!(login_outcome(stored_user("h"), None), refusal);
    assert_eq!(login_outcome(stored_user("h"), Some(true)), Ok(shown_user()));
    assert_eq!(into_user(stored_user("h")), shown_user());
}

#[test]
fn a_bearer_token_follows_its_prefix() {
    let text = |raw: &str| AuthorizationHeader::Text(raw.to_string());
    assert_eq!(extract_bearer_token(text("Bearer abc.def.ghi")), Ok("abc.def.ghi".to_string()));
    assert_eq!(extract_bearer_token(text("Bearer  padded ")), Ok(" padded ".to_string()));
    assert_eq!(
        extract_bearer_token(AuthorizationHeader::Missing),
        Err(unauthorized("Missing Authorization header"))
    );
    assert_eq!(
        extract_bearer_token(AuthorizationHeader::Unreadable),
        Err(unauthorized("Invalid Authorization header"))
    );
    for raw in ["", "Bearer", "bearer abc", "Basic abc", "Bearerabc", " Bearer abc"].iter() {
        assert_eq!(extract_bearer_token(text(raw)), Err(unauthorized("Invalid bearer token format")));
    }
    for raw in ["Bearer ", "Bearer   ", "Bearer \t"].iter() {
        assert_eq!(extract_bearer_token(text(raw)), Err(unauthorized("Bearer token cannot be empty")));
    }
}

#[test]
fn a_token_lasts_a_day_unless_set_otherwise() {
    assert_eq!(jwt_exp_hours(None), 24);
    assert_eq!(jwt_exp_hours(Some("")), 24);
    assert_eq!(jwt_exp_hours(Some("0")), 24);
    assert_eq!(jwt_exp_hours(Some("-3")), 24);
    assert_eq!(jwt_exp_hours(Some("two")), 24);
    assert_eq!(jwt_exp_hours(Some(" 2")), 24);
    assert_eq!(jwt_exp_hours(Some("2")), 2);
    assert_eq!(jwt_exp_hours(Some("+72")), 72);
}

#[test]
fn claims_expire_so_many_hours_after_they_are_issued() {
    let claims = token_claims(17, "ada@example.com", 1_700_000_000, 24).unwrap();
    assert_eq!(
        claims,
        Claims { sub: "17".to_string(), email: "ada@example.com".to_string(), exp: 1_700_086_400 }
    );
    assert_eq!(token_claims(17, "a", i64::MAX, i64::MAX), None);
    assert_eq!(token_claims(17, "a", -10, 0), None);
    assert_eq!(token_claims(-5, "a", 0, 1).unwrap().sub, "-5");
}

#[test]
fn the_subject_of_a_token_is_a_user_identifier() {
    let claims = |sub: &str| Claims { sub: sub.to_string(), email: String::new(), exp: 0 };
    assert_eq!(token_subject(&claims("17")), Ok(17));
    assert_eq!(token_subject(&claims("-1")), Ok(-1));
    for sub in ["", "abc", "1.5", "2147483648", " 1"].iter() {
        assert_eq!(token_subject(&claims(sub)), Err(unauthorized("Invalid token subject")));
    }
}

#[test]
fn the_user_of_a_token_must_exist() {
    assert_eq!(require_user(Some(shown_user())), Ok(shown_user()));
    assert_eq!(require_user(None), Err(unauthorized("User not found")));
}
