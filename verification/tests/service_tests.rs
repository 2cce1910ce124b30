use normal_oj::courses::{Course, CourseStore};
use normal_oj::error::{DomainError, ValidationIssue};
use normal_oj::language::Language;
use normal_oj::role::Role;
use normal_oj::status::SubmissionStatus;
use normal_oj::submissions::{AddParams, ListParams, SubmissionStore};
use normal_oj::users::{BatchSignupItem, BatchSignupParams, RegisterParams, UserStore};
use normal_oj::views::{NojResponseBuilder, SubmissionListResponse, UserInfoResponse};

const NOW: i64 = 1_700_000_000;

fn register(store: &mut UserStore, username: &str, email: &str, password: &str) -> normal_oj::users::User {
    store
        .create_with_password(
            &RegisterParams {
                email: email.to_string(),
                password: password.to_string(),
                username: username.to_string(),
            },
            NOW,
        )
        .unwrap()
}

#[test]
fn colliding_registrations_never_both_succeed() {
    // same username
    let mut store = UserStore::new();
    register(&mut store, "alice", "alice@example.com", "pw-one");
    let second = store.create_with_password(
        &RegisterParams {
            email: "other@example.com".to_string(),
            password: "pw-two".to_string(),
            username: "alice".to_string(),
        },
        NOW,
    );
    assert_eq!(second.unwrap_err(), DomainError::AlreadyExists);
    assert_eq!(store.users.len(), 1);

    // same email
    let mut store = UserStore::new();
    register(&mut store, "alice", "alice@example.com", "pw-one");
    let second = store.create_with_password(
        &RegisterParams {
            email: "alice@example.com".to_string(),
            password: "pw-two".to_string(),
            username: "bob".to_string(),
        },
        NOW,
    );
    assert_eq!(second.unwrap_err(), DomainError::AlreadyExists);
    assert_eq!(store.users.len(), 1);
}

#[test]
fn recorded_result_changes_exactly_four_fields() {
    let mut store = SubmissionStore::new();
    let created = store
        .add(
            &AddParams { user: 7, problem: 3, timestamp: NOW, language: Language::Python },
            NOW,
        )
        .unwrap();
    assert_eq!(created.status, SubmissionStatus::Pending);
    assert_eq!(created.score, 0);

    store
        .update_sandbox_result(created.id, 87, 120, 2048, SubmissionStatus::Accepted)
        .unwrap();

    let fetched = store.find_by_id(created.id).unwrap();
    assert_eq!(fetched.score, 87);
    assert_eq!(fetched.exec_time, 120);
    assert_eq!(fetched.memory_usage, 2048);
    assert_eq!(fetched.status, SubmissionStatus::Accepted);
    // everything else is untouched
    assert_eq!(fetched.id, created.id);
    assert_eq!(fetched.user_id, created.user_id);
    assert_eq!(fetched.problem_id, created.problem_id);
    assert_eq!(fetched.timestamp, created.timestamp);
    assert_eq!(fetched.last_send, created.last_send);
    assert_eq!(fetched.code, created.code);
    assert_eq!(fetched.language, created.language);
}

#[test]
fn recording_for_a_missing_submission_misses() {
    let mut store = SubmissionStore::new();
    let res = store.update_sandbox_result(42, 1, 2, 3, SubmissionStatus::Accepted);
    assert_eq!(res.unwrap_err(), DomainError::NotFound);
}

#[test]
fn three_submissions_window_returns_the_second() {
    let mut store = SubmissionStore::new();
    let mut ids = vec![];
    for i in 0..3 {
        let s = store
            .add(
                &AddParams {
                    user: 10 + i,
                    problem: 3,
                    timestamp: NOW + i as i64,
                    language: Language::C,
                },
                NOW,
            )
            .unwrap();
        ids.push(s.id);
    }
    let listed = store.list(&ListParams {
        offset: Some(1),
        count: Some(1),
        problem: Some(3),
        user: None,
        status: None,
        language: None,
        course: None,
    });
    assert_eq!(listed.len(), 1);
    assert_eq!(listed[0].id, ids[1]);
}

#[test]
fn submission_filters_are_conjunctive() {
    let mut store = SubmissionStore::new();
    for (user, problem, language) in
        [(1, 3, Language::C), (1, 4, Language::Cpp), (2, 3, Language::C)]
    {
        store
            .add(&AddParams { user, problem, timestamp: NOW, language }, NOW)
            .unwrap();
    }
    let listed = store.list(&ListParams {
        offset: None,
        count: None,
        problem: Some(3),
        user: Some(1),
        status: Some(SubmissionStatus::Pending),
        language: Some(Language::C),
        course: None,
    });
    assert_eq!(listed.len(), 1);
    assert_eq!(listed[0].user_id, 1);
    assert_eq!(listed[0].problem_id, 3);
}

#[test]
fn batch_with_unknown_role_aborts_whole_batch() {
    let mut store = UserStore::new();
    register(&mut store, "first_admin", "first_admin@noj.tw", "password");
    let before = store.users.len();

    let params = BatchSignupParams {
        course: None,
        users: vec![
            BatchSignupItem {
                username: "ok_user".to_string(),
                password: "pw".to_string(),
                email: "ok_user@noj.tw".to_string(),
                displayed_name: None,
                role: None,
            },
            BatchSignupItem {
                username: "bad_user".to_string(),
                password: "pw".to_string(),
                email: "bad_user@noj.tw".to_string(),
                displayed_name: None,
                role: Some(9),
            },
        ],
    };
    let res = store.batch_signup(&params, NOW);
    match res {
        Err(DomainError::Validation(v)) => assert_eq!(v, vec![ValidationIssue::RoleUnknown]),
        other => panic!("expected the unknown-role validation error, got {:?}", other),
    }
    // nothing was committed, not even the valid first row
    assert_eq!(store.users.len(), before);
    assert!(store.find_by_username("ok_user").is_err());
}

#[test]
fn batch_adopts_existing_accounts() {
    let mut store = UserStore::new();
    let existing = register(&mut store, "alice", "alice@example.com", "old-pass");
    let params = BatchSignupParams {
        course: None,
        users: vec![BatchSignupItem {
            username: "alice".to_string(),
            password: "new-pass".to_string(),
            email: "alice@elsewhere.org".to_string(),
            displayed_name: None,
            role: None,
        }],
    };
    let created = store.batch_signup(&params, NOW).unwrap();
    assert_eq!(created.len(), 1);
    assert_eq!(created[0].id, existing.id);
    // the adopted account keeps its password
    assert!(store.find_by_username("alice").unwrap().verify_password("old-pass"));
}

#[test]
fn authentication_collapses_misses_and_wrong_passwords() {
    let mut store = UserStore::new();
    register(&mut store, "alice", "alice@example.com", "right-password");

    assert!(store.authenticate("alice", "right-password").is_some());
    assert!(store.authenticate("alice@example.com", "right-password").is_some());
    assert!(store.authenticate("alice", "wrong-password").is_none());
    assert!(store.authenticate("nobody", "right-password").is_none());
}

#[test]
fn change_password_needs_the_old_one() {
    let mut store = UserStore::new();
    let u = register(&mut store, "alice", "alice@example.com", "old-pass");
    let pid = u.pid.clone();

    let refused = store.change_password(&pid, "guessed-wrong", "new-pass", NOW);
    assert_eq!(refused.unwrap_err(), DomainError::PermissionDenied);
    assert!(store.find_by_username("alice").unwrap().verify_password("old-pass"));

    store.change_password(&pid, "old-pass", "new-pass", NOW).unwrap();
    assert!(store.find_by_username("alice").unwrap().verify_password("new-pass"));
}

#[test]
fn claims_keys_are_canonicalized() {
    let mut store = UserStore::new();
    let u = register(&mut store, "alice", "alice@example.com", "pw");
    let upper = u.pid.to_uppercase();
    assert_ne!(upper, u.pid);
    let found = store.find_by_claims_key(&upper).unwrap();
    assert_eq!(found.id, u.id);
    assert!(store.find_by_claims_key("not-a-uuid").is_err());
}

#[test]
fn verification_token_lifecycle() {
    let mut store = UserStore::new();
    let u = register(&mut store, "alice", "alice@example.com", "pw");

    let first = store.set_email_verification_sent(u.id, NOW + 1).unwrap();
    let tok1 = first.email_verification_token.clone().unwrap();
    // issuing again rotates the token, invalidating the prior link
    let second = store.set_email_verification_sent(u.id, NOW + 2).unwrap();
    let tok2 = second.email_verification_token.clone().unwrap();
    assert_ne!(tok1, tok2);
    assert_eq!(
        store.find_by_verification_token(&tok1).unwrap_err(),
        DomainError::NotFound
    );

    let verified = store.consume_verification_token(&tok2, NOW + 3).unwrap();
    assert_eq!(verified.email_verified_at, Some(NOW + 3));
    // consuming the same link again is an idempotent success
    let again = store.consume_verification_token(&tok2, NOW + 4).unwrap();
    assert_eq!(again.email_verified_at, Some(NOW + 3));
}

#[test]
fn reset_token_is_one_shot() {
    let mut store = UserStore::new();
    let u = register(&mut store, "alice", "alice@example.com", "old-pass");

    let sent = store.set_forgot_password_sent(u.id, NOW + 1).unwrap();
    let tok = sent.reset_token.clone().unwrap();

    store.consume_reset_token(&tok, "fresh-pass", NOW + 2).unwrap();
    assert!(store.find_by_username("alice").unwrap().verify_password("fresh-pass"));
    assert!(store.find_by_username("alice").unwrap().reset_token.is_none());

    // the consumed link is gone; a second use looks like success but
    // changes nothing
    store.consume_reset_token(&tok, "stolen-pass", NOW + 3).unwrap();
    assert!(store.find_by_username("alice").unwrap().verify_password("fresh-pass"));

    // an unknown token is answered exactly like a consumed one
    store.consume_reset_token("no-such-token", "x", NOW + 4).unwrap();
}

#[test]
fn availability_checks_report_taken_fields() {
    let mut store = UserStore::new();
    register(&mut store, "alice", "alice@example.com", "pw");
    assert!(store.is_username_taken("alice"));
    assert!(!store.is_username_taken("bob"));
    assert!(store.is_email_taken("alice@example.com"));
    assert!(!store.is_email_taken("bob@example.com"));
}

#[test]
fn course_lookup() {
    let mut store = CourseStore::new();
    store.courses.push(Course { id: 1, name: "Public".to_string(), owner_id: 1 });
    assert_eq!(store.find_by_name("Public").unwrap().id, 1);
    assert_eq!(store.find_by_name("Private").unwrap_err(), DomainError::NotFound);
    assert_eq!(store.find_by_id(1).unwrap().name, "Public");
    assert_eq!(store.find_by_id(2).unwrap_err(), DomainError::NotFound);
}

#[test]
fn response_envelope_keeps_data_and_message() {
    let resp = NojResponseBuilder::new(41i32).done();
    assert_eq!(resp.data, 41);
    assert_eq!(resp.message, "");

    let resp = NojResponseBuilder::new(()).message("Login Failed".to_string()).done();
    assert_eq!(resp.message, "Login Failed");
}

#[test]
fn submission_listing_view_flattens_rows() {
    let mut users = UserStore::new();
    let alice = register(&mut users, "alice", "alice@example.com", "pw");
    let mut store = SubmissionStore::new();
    let s = store
        .add(
            &AddParams { user: alice.id, problem: 3, timestamp: NOW, language: Language::Cpp },
            NOW,
        )
        .unwrap();
    store
        .update_sandbox_result(s.id, 55, 7, 9, SubmissionStatus::WrongAnswer)
        .unwrap();

    let rows = store.list(&ListParams {
        offset: None,
        count: None,
        problem: None,
        user: None,
        status: None,
        language: None,
        course: None,
    });
    let view = SubmissionListResponse::new(&rows, &users.users).done();
    assert_eq!(view.data.len(), 1);
    assert_eq!(view.data[0].id, s.id);
    assert_eq!(view.data[0].user.username, "alice");
    assert_eq!(view.data[0].user.role, 2);
    assert_eq!(view.data[0].status, 1);
    assert_eq!(view.data[0].language, 1);
    assert_eq!(view.data[0].score, 55);

    let info = UserInfoResponse::new(&alice);
    assert_eq!(info.username, "alice");
    assert_eq!(info.displayed_name, "alice");
    assert_eq!(info.role, 2);
}

#[test]
fn forgot_password_answers_hits_and_misses_alike() {
    let mut store = UserStore::new();
    register(&mut store, "alice", "alice@example.com", "pw");
    let before = store.users.len();

    // a hit rotates the reset token and hands the row back for mailing
    let hit = store.forgot_password("alice@example.com", NOW + 1);
    let token = hit.expect("known email starts the flow").reset_token.unwrap();
    assert!(store.find_by_reset_token(&token).is_ok());

    // a miss is not an error, and changes nothing
    let miss = store.forgot_password("nobody@example.com", NOW + 2);
    assert!(miss.is_none());
    assert_eq!(store.users.len(), before);
}

#[test]
fn session_claims_carry_the_pid_and_an_expiry() {
    let mut store = UserStore::new();
    let u = register(&mut store, "alice", "alice@example.com", "pw");
    let claims = u.session_claims(NOW, 3600);
    assert_eq!(claims.claims_key, u.pid);
    assert_eq!(claims.expires_at, NOW + 3600);
    // the claims key resolves back to exactly the holder
    let resolved = store.find_by_claims_key(&claims.claims_key).unwrap();
    assert_eq!(resolved.id, u.id);
}
