use user_service::model::CreateUserRequest;
use user_service::model::UpdateUserRequest;
use user_service::store::StoreError;
use user_service::store::UserStore;

fn create_request(name: &str, email: &str) -> CreateUserRequest {
    CreateUserRequest {
        name: name.to_string(),
        email: email.to_string(),
    }
}

#[test]
fn test_create_and_get_user() {
    let mut store = UserStore::new();

    let create_request = create_request("Test User", "test@example.com");

    let created_user = store
        .create_user(&create_request, 1_000_000)
        .expect("Failed to create user");
    assert_eq!(created_user.name, "Test User");
    assert_eq!(created_user.email, "test@example.com");
    assert!(created_user.active);

    let retrieved_user = store.get_user_by_id(created_user.id);
    assert!(retrieved_user.is_some());
    let user = retrieved_user.unwrap();
    assert_eq!(user.id, created_user.id);
    assert_eq!(user.name, "Test User");
}

#[test]
fn test_list_users() {
    let mut store = UserStore::new();
    store
        .create_user(&create_request("Test User", "test@example.com"), 1_000_000)
        .expect("Failed to create user");

    let users = store.list_users();
    assert!(!users.is_empty());
}

#[test]
fn test_update_user() {
    let mut store = UserStore::new();

    let created_user = store
        .create_user(
            &create_request("Update Test User", "update_test@example.com"),
            1_000_000,
        )
        .expect("Failed to create user");

    let update_request = UpdateUserRequest {
        name: Some("Updated Name".to_string()),
        email: None,
        active: Some(false),
    };

    let updated_user = store
        .update_user(created_user.id, &update_request)
        .expect("Failed to update user");
    assert!(updated_user.is_some());
    let user = updated_user.unwrap();
    assert_eq!(user.name, "Updated Name");
    assert!(!user.active);
    assert_eq!(user.email, "update_test@example.com"); // Should remain unchanged
}

#[test]
fn test_delete_user() {
    let mut store = UserStore::new();

    let created_user = store
        .create_user(
            &create_request("Delete Test User", "delete_test@example.com"),
            1_000_000,
        )
        .expect("Failed to create user");

    let deleted = store.delete_user(created_user.id);
    assert!(deleted);

    let retrieved_user = store.get_user_by_id(created_user.id);
    assert!(retrieved_user.is_none());

    let not_deleted = store.delete_user(99999);
    assert!(!not_deleted);
}

#[test]
fn test_user_repository_integration() {
    let mut store = UserStore::new();

    let created_user = store
        .create_user(
            &create_request("Integration Test User", "integration_test@example.com"),
            1_000_000,
        )
        .expect("Failed to create user");

    assert_eq!(created_user.name, "Integration Test User");
    assert_eq!(created_user.email, "integration_test@example.com");
    assert!(created_user.active);

    let retrieved_user = store.get_user_by_id(created_user.id);
    assert!(retrieved_user.is_some());
    let user = retrieved_user.unwrap();
    assert_eq!(user.id, created_user.id);
    assert_eq!(user.name, "Integration Test User");

    let users = store.list_users();
    assert!(!users.is_empty());
    assert!(users.iter().any(|u| u.id == created_user.id));

    let update_request = UpdateUserRequest {
        name: Some("Updated Integration User".to_string()),
        email: None,
        active: Some(false),
    };

    let updated_user = store
        .update_user(created_user.id, &update_request)
        .expect("Failed to update user");
    assert!(updated_user.is_some());
    let user = updated_user.unwrap();
    assert_eq!(user.name, "Updated Integration User");
    assert!(!user.active);
    assert_eq!(user.email, "integration_test@example.com");

    let deleted = store.delete_user(created_user.id);
    assert!(deleted);

    let deleted_user = store.get_user_by_id(created_user.id);
    assert!(deleted_user.is_none());
}

#[test]
fn test_user_repository_edge_cases() {
    let mut store = UserStore::new();

    let non_existent = store.get_user_by_id(99999);
    assert!(non_existent.is_none());

    let not_deleted = store.delete_user(99999);
    assert!(!not_deleted);

    let update_request = UpdateUserRequest {
        name: Some("Non-existent User".to_string()),
        email: None,
        active: None,
    };

    let not_updated = store
        .update_user(99999, &update_request)
        .expect("Failed to handle non-existent user update");
    assert!(not_updated.is_none());
}

#[test]
fn ids_are_assigned_in_sequence() {
    let mut store = UserStore::new();
    let a = store
        .create_user(&create_request("A", "a@example.com"), 10)
        .unwrap();
    let b = store
        .create_user(&create_request("B", "b@example.com"), 20)
        .unwrap();
    assert_eq!(a.id, 1);
    assert_eq!(b.id, 2);
}

#[test]
fn duplicate_email_on_create_is_refused() {
    let mut store = UserStore::new();
    store
        .create_user(&create_request("First", "same@example.com"), 10)
        .unwrap();
    let second = store.create_user(&create_request("Second", "same@example.com"), 20);
    assert!(matches!(second, Err(StoreError::UniqueViolation)));
    // the refused row was not stored
    assert_eq!(store.list_users().len(), 1);
}

#[test]
fn duplicate_email_on_update_is_refused() {
    let mut store = UserStore::new();
    let first = store
        .create_user(&create_request("First", "first@example.com"), 10)
        .unwrap();
    let second = store
        .create_user(&create_request("Second", "second@example.com"), 20)
        .unwrap();
    let steal = UpdateUserRequest {
        name: None,
        email: Some("first@example.com".to_string()),
        active: None,
    };
    let result = store.update_user(second.id, &steal);
    assert!(matches!(result, Err(StoreError::UniqueViolation)));
    // keeping one's own email is no conflict
    let keep = UpdateUserRequest {
        name: None,
        email: Some("first@example.com".to_string()),
        active: None,
    };
    let kept = store.update_user(first.id, &keep).unwrap().unwrap();
    assert_eq!(kept.email, "first@example.com");
}

#[test]
fn empty_update_returns_user_unchanged() {
    let mut store = UserStore::new();
    let created = store
        .create_user(&create_request("Jane Doe", "jane@example.com"), 42)
        .unwrap();
    let empty = UpdateUserRequest {
        name: None,
        email: None,
        active: None,
    };
    let user = store.update_user(created.id, &empty).unwrap().unwrap();
    assert_eq!(user.id, created.id);
    assert_eq!(user.name, created.name);
    assert_eq!(user.email, created.email);
    assert_eq!(user.active, created.active);
    assert_eq!(user.created_at, created.created_at);
}

#[test]
fn partial_update_changes_exactly_present_fields() {
    let mut store = UserStore::new();
    let created = store
        .create_user(&create_request("Jane Doe", "jane@example.com"), 42)
        .unwrap();

    let only_active = UpdateUserRequest {
        name: None,
        email: None,
        active: Some(false),
    };
    let user = store.update_user(created.id, &only_active).unwrap().unwrap();
    assert_eq!(user.name, "Jane Doe");
    assert_eq!(user.email, "jane@example.com");
    assert!(!user.active);
    assert_eq!(user.created_at, created.created_at);

    let only_email = UpdateUserRequest {
        name: None,
        email: Some("jane.doe@example.com".to_string()),
        active: None,
    };
    let user = store.update_user(created.id, &only_email).unwrap().unwrap();
    assert_eq!(user.name, "Jane Doe");
    assert_eq!(user.email, "jane.doe@example.com");
    assert!(!user.active);

    let all_fields = UpdateUserRequest {
        name: Some("Jane Smith".to_string()),
        email: Some("jane.smith@example.com".to_string()),
        active: Some(true),
    };
    let user = store.update_user(created.id, &all_fields).unwrap().unwrap();
    assert_eq!(user.name, "Jane Smith");
    assert_eq!(user.email, "jane.smith@example.com");
    assert!(user.active);
    assert_eq!(user.created_at, created.created_at);
}

#[test]
fn delete_returns_true_exactly_once() {
    let mut store = UserStore::new();
    let created = store
        .create_user(&create_request("Jane Doe", "jane@example.com"), 42)
        .unwrap();
    assert!(store.delete_user(created.id));
    assert!(!store.delete_user(created.id));
}

#[test]
fn list_returns_newest_first() {
    let mut store = UserStore::new();
    store
        .create_user(&create_request("Oldest", "oldest@example.com"), 100)
        .unwrap();
    store
        .create_user(&create_request("Newest", "newest@example.com"), 300)
        .unwrap();
    store
        .create_user(&create_request("Middle", "middle@example.com"), 200)
        .unwrap();
    let users = store.list_users();
    assert_eq!(users.len(), 3);
    assert_eq!(users[0].name, "Newest");
    assert_eq!(users[1].name, "Middle");
    assert_eq!(users[2].name, "Oldest");
}

#[test]
fn equal_timestamps_keep_insertion_order() {
    let mut store = UserStore::new();
    store
        .create_user(&create_request("First", "first@example.com"), 100)
        .unwrap();
    store
        .create_user(&create_request("Second", "second@example.com"), 100)
        .unwrap();
    let users = store.list_users();
    assert_eq!(users.len(), 2);
    assert_eq!(users[0].name, "First");
    assert_eq!(users[1].name, "Second");
}
