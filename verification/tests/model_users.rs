use normal_oj::error::{DomainError, ValidationIssue};
use normal_oj::role::Role;
use normal_oj::users::{BatchSignupItem, BatchSignupParams, EditParams, RegisterParams, UserStore};

const NOW: i64 = 1_700_000_000;

fn register(store: &mut UserStore, username: &str, email: &str, password: &str) -> i32 {
    let u = store
        .create_with_password(
            &RegisterParams {
                email: email.to_string(),
                password: password.to_string(),
                username: username.to_string(),
            },
            NOW,
        )
        .expect("registration should succeed");
    u.id
}

/// Replays the reference roster: `user1` with password `12341234` and the
/// well-known pid, and `first_admin` holding the admin role.
fn seed(store: &mut UserStore) {
    let id1 = register(store, "user1", "user1@example.com", "12341234");
    let admin_id = register(store, "first_admin", "first_admin@noj.tw", "password");
    for u in store.users.iter_mut() {
        if u.id == id1 {
            u.pid = "11111111-1111-1111-1111-111111111111".to_string();
        }
        if u.id == admin_id {
            u.role = Role::Admin;
        }
    }
}

#[test]
fn test_can_validate_model() {
    let mut store = UserStore::new();
    let res = store.create_with_password(
        &RegisterParams {
            email: "invalid-email".to_string(),
            password: "1234".to_string(),
            username: "1".to_string(),
        },
        NOW,
    );
    match res {
        Err(DomainError::Validation(issues)) => {
            assert_eq!(
                issues,
                vec![ValidationIssue::NameTooShort, ValidationIssue::EmailInvalid]
            );
        }
        other => panic!("expected a validation error, got {:?}", other),
    }
    assert_eq!(store.users.len(), 0);
}

#[test]
fn can_create_with_password() {
    let mut store = UserStore::new();
    let res = store.create_with_password(
        &RegisterParams {
            email: "test@framework.com".to_string(),
            password: "1234".to_string(),
            username: "framework".to_string(),
        },
        NOW,
    );
    let user = res.expect("registration should succeed");
    assert_eq!(user.name, "framework");
    assert_eq!(user.email, "test@framework.com");
    assert_eq!(user.role, Role::Student);
    assert!(user.email_verified_at.is_none());
    assert!(user.verify_password("1234"));
    assert!(user.api_key.starts_with("noral-oj-"));
}

#[test]
fn handle_create_with_password_with_duplicate() {
    let mut store = UserStore::new();
    seed(&mut store);
    let new_user = store.create_with_password(
        &RegisterParams {
            email: "user1@example.com".to_string(),
            password: "1234".to_string(),
            username: "framework".to_string(),
        },
        NOW,
    );
    assert_eq!(new_user.unwrap_err(), DomainError::AlreadyExists);
    assert_eq!(store.users.len(), 2);
}

#[test]
fn can_find_by_email() {
    let mut store = UserStore::new();
    seed(&mut store);
    let existing_user = store.find_by_email("user1@example.com");
    assert_eq!(existing_user.unwrap().name, "user1");
    let non_existing_user_results = store.find_by_email("un@existing-email.com");
    assert_eq!(non_existing_user_results.unwrap_err(), DomainError::NotFound);
}

#[test]
fn can_find_by_pid() {
    let mut store = UserStore::new();
    seed(&mut store);
    let existing_user = store.find_by_pid("11111111-1111-1111-1111-111111111111");
    assert_eq!(existing_user.unwrap().name, "user1");
    let non_existing_user_results = store.find_by_pid("23232323-2323-2323-2323-232323232323");
    assert_eq!(non_existing_user_results.unwrap_err(), DomainError::NotFound);
}

#[test]
fn can_find_by_username() {
    let mut store = UserStore::new();
    seed(&mut store);
    let existing_user = store.find_by_username("user1");
    assert_eq!(existing_user.unwrap().name, "user1");
    let non_existing_user = store.find_by_username("user48763");
    assert_eq!(non_existing_user.unwrap_err(), DomainError::NotFound);
}

#[test]
fn can_verification_token() {
    let mut store = UserStore::new();
    seed(&mut store);
    let user = store
        .find_by_pid("11111111-1111-1111-1111-111111111111")
        .unwrap()
        .clone();

    assert!(user.email_verification_sent_at.is_none());
    assert!(user.email_verification_token.is_none());

    assert!(store.set_email_verification_sent(user.id, NOW + 5).is_ok());

    let user = store
        .find_by_pid("11111111-1111-1111-1111-111111111111")
        .unwrap();
    assert!(user.email_verification_sent_at.is_some());
    assert!(user.email_verification_token.is_some());
}

#[test]
fn can_set_forgot_password_sent() {
    let mut store = UserStore::new();
    seed(&mut store);
    let user = store
        .find_by_pid("11111111-1111-1111-1111-111111111111")
        .unwrap()
        .clone();

    assert!(user.reset_sent_at.is_none());
    assert!(user.reset_token.is_none());

    assert!(store.set_forgot_password_sent(user.id, NOW + 5).is_ok());

    let user = store
        .find_by_pid("11111111-1111-1111-1111-111111111111")
        .unwrap();
    assert!(user.reset_sent_at.is_some());
    assert!(user.reset_token.is_some());
}

#[test]
fn can_verified() {
    let mut store = UserStore::new();
    seed(&mut store);
    let user = store
        .find_by_pid("11111111-1111-1111-1111-111111111111")
        .unwrap()
        .clone();

    assert!(user.email_verified_at.is_none());

    assert!(store.verified(user.id, NOW + 5).is_ok());

    let user = store
        .find_by_pid("11111111-1111-1111-1111-111111111111")
        .unwrap();
    assert!(user.email_verified_at.is_some());
}

#[test]
fn can_reset_password() {
    for new_passward in ["new-password", "12341234", ""] {
        let mut store = UserStore::new();
        seed(&mut store);
        let user = store
            .find_by_pid("11111111-1111-1111-1111-111111111111")
            .unwrap()
            .clone();

        assert!(user.verify_password("12341234"));

        assert!(store.reset_password(user.id, new_passward, NOW + 5).is_ok());

        assert!(store
            .find_by_pid("11111111-1111-1111-1111-111111111111")
            .unwrap()
            .verify_password(new_passward));
    }
}

#[test]
fn users_can_batch_signup() {
    let mut store = UserStore::new();
    seed(&mut store);

    let params = BatchSignupParams {
        course: None,
        users: (3..6)
            .map(|i| BatchSignupItem {
                username: format!("user{i}"),
                password: format!("user{i}"),
                email: format!("user{i}@noj.tw"),
                displayed_name: None,
                role: None,
            })
            .collect::<Vec<_>>(),
    };

    store.batch_signup(&params, NOW).unwrap();

    for u in &params.users {
        let user = store.find_by_username(&u.username).unwrap();
        assert!(user.verify_password(&u.password));
    }
}

#[test]
fn can_edit_user() {
    let mut store = UserStore::new();
    seed(&mut store);

    let test_password = "test-password";
    let user = store
        .create_with_password(
            &RegisterParams {
                email: "test@noj.tw".to_string(),
                password: "random-password".to_string(),
                username: "test".to_string(),
            },
            NOW,
        )
        .unwrap();

    assert!(!user.verify_password(test_password));

    let user = store
        .edit(
            user.id,
            &EditParams {
                displayed_name: None,
                password: Some(test_password.to_string()),
            },
            NOW + 5,
        )
        .unwrap();

    assert!(user.verify_password(test_password));
}
