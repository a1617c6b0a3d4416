use user_service::model::CreateUserRequest;
use user_service::model::UpdateUserRequest;
use user_service::validation::check_email;
use user_service::validation::validate_create;
use user_service::validation::validate_update;
use user_service::validation::validation_message_string;

#[test]
fn test_create_user_request_validation() {
    // Valid request
    let valid_request = CreateUserRequest {
        name: "Valid User".to_string(),
        email: "valid@example.com".to_string(),
    };
    assert!(validate_create(&valid_request).is_empty());

    // Invalid email
    let invalid_email = CreateUserRequest {
        name: "Valid User".to_string(),
        email: "invalid-email".to_string(),
    };
    assert!(!validate_create(&invalid_email).is_empty());

    // Empty name
    let empty_name = CreateUserRequest {
        name: "".to_string(),
        email: "valid@example.com".to_string(),
    };
    assert!(!validate_create(&empty_name).is_empty());
}

#[test]
fn test_update_user_request_validation() {
    // Valid partial update
    let valid_update = UpdateUserRequest {
        name: Some("Updated Name".to_string()),
        email: None,
        active: Some(false),
    };
    assert!(validate_update(&valid_update).is_empty());

    // Invalid email update
    let invalid_email = UpdateUserRequest {
        name: None,
        email: Some("invalid-email".to_string()),
        active: None,
    };
    assert!(!validate_update(&invalid_email).is_empty());

    // Empty name update
    let empty_name = UpdateUserRequest {
        name: Some("".to_string()),
        email: None,
        active: None,
    };
    assert!(!validate_update(&empty_name).is_empty());
}

#[test]
fn email_grammar_edge_cases() {
    assert!(check_email("a@b.c"));
    assert!(check_email("jane.doe+tag@mail.example.org"));
    assert!(!check_email(""));
    assert!(!check_email("invalid-email"));
    assert!(!check_email("a@b"));
    assert!(!check_email("@b.com"));
    assert!(!check_email("a@"));
    assert!(!check_email("a@.com"));
    assert!(!check_email("a@b.com."));
    assert!(!check_email("a@@b.com"));
    assert!(!check_email("a@b@c.com"));
}

#[test]
fn validation_message_lists_all_field_errors() {
    let bad = CreateUserRequest {
        name: "".to_string(),
        email: "invalid-email".to_string(),
    };
    let errors = validate_create(&bad);
    assert_eq!(errors.len(), 2);
    assert_eq!(errors[0].field, "name");
    assert_eq!(errors[0].message, "Name cannot be empty");
    assert_eq!(errors[1].field, "email");
    assert_eq!(errors[1].message, "Invalid email format");
    let message = validation_message_string(&errors);
    assert_eq!(
        message,
        "Validation errors: name: Name cannot be empty, email: Invalid email format"
    );
}

#[test]
fn validation_message_single_error() {
    let bad = CreateUserRequest {
        name: "Jane".to_string(),
        email: "nope".to_string(),
    };
    let errors = validate_create(&bad);
    assert_eq!(errors.len(), 1);
    let message = validation_message_string(&errors);
    assert_eq!(message, "Validation errors: email: Invalid email format");
}
