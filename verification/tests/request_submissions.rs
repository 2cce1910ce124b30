use normal_oj::language::Language;
use normal_oj::problems::{descriptions, tasks, AddParams, ProblemStore, Type, Visibility};
use normal_oj::role::Role;
use normal_oj::status::SubmissionStatus;
use normal_oj::submissions::{AddParams as SubmissionAddParams, SubmissionStore};
use normal_oj::users::{RegisterParams, UserStore};

const NOW: i64 = 1_700_000_000;

fn create_problem(users: &mut UserStore, problems: &mut ProblemStore) -> normal_oj::problems::Problem {
    let admin = users
        .create_with_password(
            &RegisterParams {
                email: "first_admin@noj.tw".to_string(),
                password: "password".to_string(),
                username: "first_admin".to_string(),
            },
            NOW,
        )
        .unwrap();
    for u in users.users.iter_mut() {
        if u.id == admin.id {
            u.role = Role::Admin;
        }
    }
    let first_admin = users.find_by_username("first_admin").unwrap().clone();

    problems
        .add(
            &AddParams {
                owner: first_admin,
                courses: vec![],
                name: "test-course".to_string(),
                status: Some(Visibility::Show),
                description: descriptions::AddParams {
                    description: String::new(),
                    input: String::new(),
                    output: String::new(),
                    hint: String::new(),
                    sample_input: vec![],
                    sample_output: vec![],
                },
                kind: Some(Type::Normal),
                allowed_language: None,
                quota: None,
                tasks: vec![tasks::AddParams {
                    test_case_count: 2,
                    score: 100,
                    time_limit: 1000,
                    memory_limit: 65535,
                }],
            },
            NOW,
        )
        .unwrap()
}

#[test]
fn create_submission() {
    let mut users = UserStore::new();
    let mut problems = ProblemStore::new();
    let problem = create_problem(&mut users, &mut problems);

    let submitter = users
        .create_with_password(
            &RegisterParams {
                email: "user1@example.com".to_string(),
                password: "12341234".to_string(),
                username: "user1".to_string(),
            },
            NOW,
        )
        .unwrap();

    let mut submissions = SubmissionStore::new();
    let submission = submissions
        .add(
            &SubmissionAddParams {
                user: submitter.id,
                problem: problem.id,
                timestamp: NOW + 10,
                language: Language::C,
            },
            NOW + 10,
        )
        .unwrap();

    assert_eq!(submission.status, SubmissionStatus::Pending);
    assert_eq!(submission.score, 0);
    assert_eq!(submission.exec_time, 0);
    assert_eq!(submission.memory_usage, 0);
    assert_eq!(submission.problem_id, problem.id);
    assert_eq!(submission.user_id, submitter.id);
    assert_eq!(submission.language, Language::C);
    assert_eq!(submission.timestamp, NOW + 10);
}
