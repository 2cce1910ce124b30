use normal_oj::error::DomainError;
use normal_oj::role::{require_role, Role};
use normal_oj::users::{RegisterParams, UserStore};
use normal_oj::views::CurrentResponse;

const NOW: i64 = 1_700_000_000;

fn seed(store: &mut UserStore) {
    store
        .create_with_password(
            &RegisterParams {
                email: "user1@example.com".to_string(),
                password: "12341234".to_string(),
                username: "user1".to_string(),
            },
            NOW,
        )
        .unwrap();
    store
        .create_with_password(
            &RegisterParams {
                email: "user2@example.com".to_string(),
                password: "12341234".to_string(),
                username: "user2".to_string(),
            },
            NOW,
        )
        .unwrap();
    let admin = store
        .create_with_password(
            &RegisterParams {
                email: "first_admin@noj.tw".to_string(),
                password: "password".to_string(),
                username: "first_admin".to_string(),
            },
            NOW,
        )
        .unwrap();
    for u in store.users.iter_mut() {
        if u.id == admin.id {
            u.role = Role::Admin;
        }
    }
}

#[test]
fn can_get_current_user() {
    let mut store = UserStore::new();
    seed(&mut store);
    let user = store.find_by_username("user1").unwrap();
    let current = CurrentResponse::new(user);
    assert_eq!(current.name, "user1");
    assert_eq!(current.email, "user1@example.com");
    assert_eq!(current.pid, user.pid);
}

#[test]
fn normal_user_cannot_add_user() {
    let mut store = UserStore::new();
    seed(&mut store);
    let user = store.find_by_username("user1").unwrap().clone();

    // the user-creation endpoint is admin-only
    let gate = require_role(&user.role, &vec![Role::Admin]);
    assert_eq!(gate.unwrap_err(), DomainError::PermissionDenied);

    let before = store.users.len();
    assert_eq!(store.users.len(), before);
}

#[test]
fn admin_can_add_user() {
    let cases: [(&str, &str, bool); 5] = [
        ("new_user@example.com", "new_user", true),
        ("new_user@example.com", "user1", false),
        ("user1@example.com", "new_user", false),
        ("user1@example.com", "user1", false),
        ("first_admin@noj.tw", "first_admin", false),
    ];
    for (email, name, created) in cases {
        let mut store = UserStore::new();
        seed(&mut store);
        let admin = store.find_by_username("first_admin").unwrap().clone();
        assert!(require_role(&admin.role, &vec![Role::Admin]).is_ok());

        let res = store.create_with_password(
            &RegisterParams {
                email: email.to_string(),
                password: "password".to_string(),
                username: name.to_string(),
            },
            NOW,
        );
        if created {
            let user = res.expect("a fresh identity should register");
            assert_eq!(user.name, name);
            assert!(store.authenticate(email, "password").is_some());
        } else {
            assert_eq!(res.unwrap_err(), DomainError::AlreadyExists);
        }
    }
}

#[test]
fn list_users() {
    let cases: [(&str, bool); 2] = [("first_admin", true), ("user1", false)];
    for (username, allowed) in cases {
        let mut store = UserStore::new();
        seed(&mut store);
        let viewer = store.find_by_username(username).unwrap().clone();
        let gate = require_role(&viewer.role, &vec![Role::Admin]);
        assert_eq!(gate.is_ok(), allowed);
        if allowed {
            let listed = store.list_users(None, 0, usize::MAX);
            assert_eq!(listed.len(), 3);
        }
    }
}

#[test]
fn can_filter_user_by_role() {
    let mut store = UserStore::new();
    seed(&mut store);
    let admins = store.list_users(Some(Role::Admin), 0, usize::MAX);
    assert!(!admins.is_empty());
    assert!(admins.iter().all(|u| u.role == Role::Admin));
}

#[test]
fn user_can_batch_signup() {
    let payload = vec!["username,email,password".to_string()]
        .into_iter()
        .chain((3..6).map(|i| format!("user{i},user{i}@noj.tw,user{i}")))
        .collect::<Vec<_>>()
        .join("\n");

    let mut store = UserStore::new();
    seed(&mut store);

    let items = normal_oj::sheet::parse_signup_sheet(&payload).unwrap();
    let params = normal_oj::users::BatchSignupParams { course: None, users: items };

    // a non-admin is refused before any row is touched
    let user1 = store.find_by_username("user1").unwrap().clone();
    let before = store.users.len();
    assert_eq!(
        store.admin_batch_signup(&user1, &params, NOW).unwrap_err(),
        DomainError::PermissionDenied
    );
    assert_eq!(store.users.len(), before);

    let admin = store.find_by_username("first_admin").unwrap().clone();
    store.admin_batch_signup(&admin, &params, NOW).unwrap();

    for i in 3..6 {
        let u = store.find_by_username(&format!("user{i}")).unwrap();
        assert!(u.verify_password(&format!("user{i}")));
    }
}

#[test]
fn non_admin_cannot_edit_user() {
    let mut store = UserStore::new();
    seed(&mut store);
    let user1 = store.find_by_username("user1").unwrap().clone();

    let refused = store.edit_user(
        &user1,
        "user2",
        &normal_oj::users::EditParams {
            displayed_name: None,
            password: Some("random-test-password".to_string()),
        },
        NOW + 5,
    );
    assert_eq!(refused.unwrap_err(), DomainError::PermissionDenied);

    // the edit was never applied
    let unchanged = store.find_by_username("user2").unwrap();
    assert!(unchanged.verify_password("12341234"));
}

#[test]
fn admin_can_edit_user() {
    let mut store = UserStore::new();
    seed(&mut store);
    let admin = store.find_by_username("first_admin").unwrap().clone();

    store
        .edit_user(
            &admin,
            "user2",
            &normal_oj::users::EditParams {
                displayed_name: None,
                password: Some("random-test-password".to_string()),
            },
            NOW + 5,
        )
        .unwrap();

    let edited = store.find_by_username("user2").unwrap();
    assert!(edited.verify_password("random-test-password"));
}
