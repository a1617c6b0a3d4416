use user_service::error::AppError;
use user_service::model::CreateUserRequest;
use user_service::model::UpdateUserRequest;
use user_service::service::create_user;
use user_service::service::delete_user;
use user_service::service::get_user_by_id;
use user_service::service::list_users;
use user_service::service::update_user;
use user_service::store::UserStore;

fn create_request(name: &str, email: &str) -> CreateUserRequest {
    CreateUserRequest {
        name: name.to_string(),
        email: email.to_string(),
    }
}

fn no_update() -> UpdateUserRequest {
    UpdateUserRequest {
        name: None,
        email: None,
        active: None,
    }
}

#[test]
fn test_user_api_integration() {
    let mut store = UserStore::new();

    // create
    let created = create_user(
        &mut store,
        create_request("API Test User", "api_test@example.com"),
        1_000_000,
    )
    .expect("create should succeed");
    let user_id = created.id.clone();

    // get by id
    let fetched = get_user_by_id(&store, &user_id).expect("get should succeed");
    assert_eq!(fetched.name, "API Test User");
    assert_eq!(fetched.email, "api_test@example.com");

    // list
    let listed = list_users(&store);
    assert!(!listed.is_empty());

    // update
    let updated = update_user(
        &mut store,
        &user_id,
        UpdateUserRequest {
            name: Some("Updated API User".to_string()),
            email: None,
            active: Some(false),
        },
    )
    .expect("update should succeed");
    assert_eq!(updated.name, "Updated API User");
    assert!(!updated.active);

    // delete
    assert!(delete_user(&mut store, &user_id).is_ok());

    // the row is gone
    let gone = get_user_by_id(&store, &user_id);
    assert!(matches!(gone, Err(AppError::NotFound(_))));
}

#[test]
fn test_user_api_error_cases() {
    let mut store = UserStore::new();

    // validation error
    let invalid = create_user(
        &mut store,
        create_request("", "invalid-email"),
        1_000_000,
    );
    match invalid {
        Err(e) => assert_eq!(e.status_code(), 400),
        Ok(_) => panic!("invalid payload must be rejected"),
    }

    // get non-existent user
    let not_found = get_user_by_id(&store, "99999");
    match not_found {
        Err(e) => assert_eq!(e.status_code(), 404),
        Ok(_) => panic!("missing row must not be found"),
    }

    // update non-existent user
    let update_not_found = update_user(
        &mut store,
        "99999",
        UpdateUserRequest {
            name: Some("Ghost User".to_string()),
            email: None,
            active: None,
        },
    );
    match update_not_found {
        Err(e) => assert_eq!(e.status_code(), 404),
        Ok(_) => panic!("missing row must not be updated"),
    }

    // delete non-existent user
    let delete_not_found = delete_user(&mut store, "99999");
    match delete_not_found {
        Err(e) => assert_eq!(e.status_code(), 404),
        Ok(_) => panic!("missing row must not be deleted"),
    }
}

#[test]
fn crud_scenario_round_trip() {
    let mut store = UserStore::new();

    let created = create_user(
        &mut store,
        create_request("Jane Doe", "jane@example.com"),
        1_700_000_000_000_000,
    )
    .expect("create should succeed");
    assert!(created.id.chars().all(|c| c.is_ascii_digit()));
    assert_eq!(created.id, "1");
    assert!(created.active);
    assert_eq!(created.name, "Jane Doe");
    assert_eq!(created.email, "jane@example.com");

    let updated = update_user(
        &mut store,
        &created.id,
        UpdateUserRequest {
            name: None,
            email: None,
            active: Some(false),
        },
    )
    .expect("update should succeed");
    assert_eq!(updated.name, "Jane Doe");
    assert_eq!(updated.email, "jane@example.com");
    assert!(!updated.active);

    assert!(delete_user(&mut store, &created.id).is_ok());

    let after = get_user_by_id(&store, &created.id);
    match after {
        Err(e) => assert_eq!(e.status_code(), 404),
        Ok(_) => panic!("deleted row must be gone"),
    }
}

#[test]
fn validation_failure_reports_before_any_store_call() {
    let mut store = UserStore::new();
    let result = create_user(
        &mut store,
        create_request("", "valid@example.com"),
        1_000_000,
    );
    match result {
        Err(AppError::BadRequest(m)) => {
            assert_eq!(m, "Validation errors: name: Name cannot be empty");
        }
        _ => panic!("empty name must be a bad request"),
    }
    // nothing was stored
    assert!(list_users(&store).is_empty());
}

#[test]
fn duplicate_email_reports_email_exists() {
    let mut store = UserStore::new();
    create_user(
        &mut store,
        create_request("First", "same@example.com"),
        1_000_000,
    )
    .expect("create should succeed");
    let second = create_user(
        &mut store,
        create_request("Second", "same@example.com"),
        2_000_000,
    );
    match second {
        Err(AppError::BadRequest(m)) => {
            assert_eq!(m, "Email address already exists");
        }
        _ => panic!("duplicate email must be a bad request"),
    }
}

#[test]
fn malformed_id_is_rejected_before_lookup() {
    let mut store = UserStore::new();
    for id in ["abc", "", "12x", "1.5", "2147483648"] {
        let got = get_user_by_id(&store, id);
        match got {
            Err(AppError::BadRequest(m)) => assert_eq!(m, "Invalid user ID format"),
            _ => panic!("malformed id must be a bad request"),
        }
        let deleted = delete_user(&mut store, id);
        match deleted {
            Err(AppError::BadRequest(m)) => assert_eq!(m, "Invalid user ID format"),
            _ => panic!("malformed id must be a bad request"),
        }
        let updated = update_user(&mut store, id, no_update());
        match updated {
            Err(AppError::BadRequest(m)) => assert_eq!(m, "Invalid user ID format"),
            _ => panic!("malformed id must be a bad request"),
        }
    }
}

#[test]
fn numeric_but_absent_ids_are_not_found() {
    let store = UserStore::new();
    for id in ["0", "-1", "+7", "99999"] {
        let got = get_user_by_id(&store, id);
        match got {
            Err(AppError::NotFound(m)) => assert_eq!(m, "User not found"),
            _ => panic!("absent id must be not-found"),
        }
    }
}

#[test]
fn list_renders_rows_newest_first() {
    let mut store = UserStore::new();
    create_user(&mut store, create_request("Old", "old@example.com"), 100).unwrap();
    create_user(&mut store, create_request("New", "new@example.com"), 200).unwrap();
    let listed = list_users(&store);
    assert_eq!(listed.len(), 2);
    assert_eq!(listed[0].name, "New");
    assert_eq!(listed[1].name, "Old");
    assert_eq!(listed[0].id, "2");
    assert_eq!(listed[1].id, "1");
}
