use std::io::Write;

use normal_oj::error::DomainError;
use normal_oj::problems::{descriptions, tasks, AddParams, ProblemStore, Type, Visibility};
use normal_oj::role::Role;
use normal_oj::storage::{test_case_path, upload_test_case, ArtifactStore};
use normal_oj::users::{RegisterParams, UserStore};
use normal_oj::views::ProblemDetailResponse;
use zip::write::SimpleFileOptions;

const NOW: i64 = 1_700_000_000;

fn seed_users(store: &mut UserStore) {
    store
        .create_with_password(
            &RegisterParams {
                email: "user1@example.com".to_string(),
                password: "12341234".to_string(),
                username: "user1".to_string(),
            },
            NOW,
        )
        .unwrap();
    let admin = store
        .create_with_password(
            &RegisterParams {
                email: "first_admin@noj.tw".to_string(),
                password: "password".to_string(),
                username: "first_admin".to_string(),
            },
            NOW,
        )
        .unwrap();
    for u in store.users.iter_mut() {
        if u.id == admin.id {
            u.role = Role::Admin;
        }
    }
}

fn create_problem_params(owner: normal_oj::users::User) -> AddParams {
    AddParams {
        owner,
        courses: vec![],
        name: "test-course".to_string(),
        status: Some(Visibility::Show),
        description: descriptions::AddParams {
            description: String::new(),
            input: String::new(),
            output: String::new(),
            hint: String::new(),
            sample_input: vec![],
            sample_output: vec![],
        },
        kind: Some(Type::Normal),
        allowed_language: None,
        quota: None,
        tasks: vec![tasks::AddParams {
            test_case_count: 2,
            score: 100,
            time_limit: 1000,
            memory_limit: 65535,
        }],
    }
}

fn make_test_case(tasks: &[tasks::ProblemTask]) -> Vec<u8> {
    let mut buf = std::io::Cursor::new(Vec::new());
    {
        let mut test_case = zip::ZipWriter::new(&mut buf);
        let opt = SimpleFileOptions::default();
        test_case.add_directory("include/", opt).unwrap();
        test_case.add_directory("share/", opt).unwrap();
        for (task_i, task) in tasks.iter().enumerate() {
            for case_i in 0..task.test_case_count {
                let in_path = format!("test-case/{task_i:02}{case_i:02}/STDIN");
                test_case.start_file(in_path, opt).unwrap();
                test_case.write_all(b"1 2\n").unwrap();
                let out_path = format!("test-case/{task_i:02}{case_i:02}/STDOUT");
                test_case.start_file(out_path, opt).unwrap();
                test_case.write_all(b"3\n").unwrap();
            }
        }
        test_case.finish().unwrap();
    }
    buf.into_inner()
}

#[test]
fn student_cannot_create_problem() {
    let mut users = UserStore::new();
    seed_users(&mut users);
    let student = users.find_by_username("user1").unwrap().clone();

    let mut problems = ProblemStore::new();
    let res = problems.add(&create_problem_params(student), NOW);
    assert_eq!(res.unwrap_err(), DomainError::PermissionDenied);
    assert_eq!(problems.problems.len(), 0);
    assert_eq!(problems.descriptions.len(), 0);
    assert_eq!(problems.tasks.len(), 0);
}

#[test]
fn admin_can_create_problem_and_test_case() {
    let mut users = UserStore::new();
    seed_users(&mut users);
    let first_admin = users.find_by_username("first_admin").unwrap().clone();

    let mut problems = ProblemStore::new();
    let mut artifacts = ArtifactStore::new();
    let problem = problems
        .add(&create_problem_params(first_admin.clone()), NOW)
        .unwrap();

    let tasks = problems.tasks(problem.id);
    let test_case_content = make_test_case(&tasks);

    let updated = upload_test_case(
        &mut problems,
        &mut artifacts,
        &first_admin,
        problem.id,
        &test_case_content,
        NOW + 5,
    )
    .expect("a complete archive should validate and upload");

    let problem = problems.find_by_id(problem.id).unwrap();
    let archive_id = problem.test_case_id.clone().unwrap();
    assert_eq!(updated.test_case_id.as_deref(), Some(archive_id.as_str()));

    let path = test_case_path(&archive_id);
    let uploaded_test_case = artifacts.get(&path).unwrap();
    assert_eq!(&test_case_content, uploaded_test_case);
}

#[test]
fn view_single_problem() {
    let mut users = UserStore::new();
    seed_users(&mut users);
    let first_admin = users.find_by_username("first_admin").unwrap().clone();

    let mut problems = ProblemStore::new();
    let problem = problems
        .add(&create_problem_params(first_admin.clone()), NOW)
        .unwrap();

    let desc = problems.find_description(problem.description_id).unwrap();
    let tasks = problems.tasks(problem.id);
    let resp = ProblemDetailResponse::new(&problem, desc, &first_admin, &tasks).done();

    assert_eq!(resp.data.problem_name, "test-course");
    assert_eq!(resp.data.owner, "first_admin");
    assert_eq!(resp.data.status, Visibility::Show);
    assert_eq!(resp.data.kind, Type::Normal);
    assert_eq!(resp.data.allowed_language, 7);
    assert_eq!(resp.data.quota, -1);
    assert_eq!(resp.data.test_case.len(), 1);
    assert_eq!(resp.data.test_case[0].test_case_count, 2);
    assert_eq!(resp.data.test_case[0].score, 100);
    assert_eq!(resp.data.test_case[0].time_limit, 1000);
    assert_eq!(resp.data.test_case[0].memory_limit, 65535);
}
