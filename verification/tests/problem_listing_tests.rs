use normal_oj::problems::{descriptions, tasks, AddParams, ListParams, ProblemStore, Type, Visibility};
use normal_oj::role::Role;
use normal_oj::users::{RegisterParams, UserStore};
use normal_oj::views::ProblemListResponse;

const NOW: i64 = 1_700_000_000;

fn staff(users: &mut UserStore, name: &str, role: Role) -> normal_oj::users::User {
    let u = users
        .create_with_password(
            &RegisterParams {
                email: format!("{name}@noj.tw"),
                password: "password".to_string(),
                username: name.to_string(),
            },
            NOW,
        )
        .unwrap();
    for x in users.users.iter_mut() {
        if x.id == u.id {
            x.role = role;
        }
    }
    users.find_by_username(name).unwrap().clone()
}

fn add_problem(
    problems: &mut ProblemStore,
    owner: &normal_oj::users::User,
    name: &str,
    status: Visibility,
) -> normal_oj::problems::Problem {
    problems
        .add(
            &AddParams {
                owner: owner.clone(),
                courses: vec![],
                name: name.to_string(),
                status: Some(status),
                description: descriptions::AddParams {
                    description: String::new(),
                    input: String::new(),
                    output: String::new(),
                    hint: String::new(),
                    sample_input: vec![],
                    sample_output: vec![],
                },
                kind: Some(Type::Normal),
                allowed_language: None,
                quota: None,
                tasks: vec![tasks::AddParams {
                    test_case_count: 1,
                    score: 100,
                    time_limit: 1000,
                    memory_limit: 65535,
                }],
            },
            NOW,
        )
        .unwrap()
}

#[test]
fn duplicate_problem_name_is_refused() {
    let mut users = UserStore::new();
    let teacher = staff(&mut users, "teacher", Role::Teacher);
    let mut problems = ProblemStore::new();
    add_problem(&mut problems, &teacher, "A + B", Visibility::Show);
    let before = problems.problems.len();
    let res = problems.add(
        &AddParams {
            owner: teacher.clone(),
            courses: vec![],
            name: "A + B".to_string(),
            status: None,
            description: descriptions::AddParams {
                description: String::new(),
                input: String::new(),
                output: String::new(),
                hint: String::new(),
                sample_input: vec![],
                sample_output: vec![],
            },
            kind: None,
            allowed_language: None,
            quota: None,
            tasks: vec![],
        },
        NOW,
    );
    assert_eq!(res.unwrap_err(), normal_oj::error::DomainError::AlreadyExists);
    assert_eq!(problems.problems.len(), before);
}

#[test]
fn hidden_problems_are_shown_only_to_their_owner() {
    let mut users = UserStore::new();
    let teacher = staff(&mut users, "teacher", Role::Teacher);
    let student = staff(&mut users, "student", Role::Student);

    let mut problems = ProblemStore::new();
    add_problem(&mut problems, &teacher, "visible", Visibility::Show);
    add_problem(&mut problems, &teacher, "secret", Visibility::Hidden);

    let student_view = problems.list(&ListParams {
        viewer: student.clone(),
        offset: None,
        count: None,
        name: None,
        tags: None,
        course: None,
    });
    assert_eq!(student_view.len(), 1);
    assert_eq!(student_view[0].name, "visible");

    let owner_view = problems.list(&ListParams {
        viewer: teacher.clone(),
        offset: None,
        count: None,
        name: None,
        tags: None,
        course: None,
    });
    assert_eq!(owner_view.len(), 2);
}

#[test]
fn listing_window_and_name_filter() {
    let mut users = UserStore::new();
    let teacher = staff(&mut users, "teacher", Role::Teacher);
    let mut problems = ProblemStore::new();
    for i in 0..15 {
        add_problem(&mut problems, &teacher, &format!("p{i}"), Visibility::Show);
    }

    // the default page is ten
    let page = problems.list(&ListParams {
        viewer: teacher.clone(),
        offset: None,
        count: None,
        name: None,
        tags: None,
        course: None,
    });
    assert_eq!(page.len(), 10);
    assert_eq!(page[0].name, "p0");

    // a negative count means everything
    let all = problems.list(&ListParams {
        viewer: teacher.clone(),
        offset: None,
        count: Some(-1),
        name: None,
        tags: None,
        course: None,
    });
    assert_eq!(all.len(), 15);

    // offset and count window in id order
    let windowed = problems.list(&ListParams {
        viewer: teacher.clone(),
        offset: Some(12),
        count: Some(5),
        name: None,
        tags: None,
        course: None,
    });
    assert_eq!(windowed.len(), 3);
    assert_eq!(windowed[0].name, "p12");

    // exact-name filter
    let named = problems.list(&ListParams {
        viewer: teacher.clone(),
        offset: None,
        count: None,
        name: Some("p7".to_string()),
        tags: None,
        course: None,
    });
    assert_eq!(named.len(), 1);
    assert_eq!(named[0].name, "p7");

    let view = ProblemListResponse::new(&named).done();
    assert_eq!(view.data.len(), 1);
    assert_eq!(view.data[0].name, "p7");
    assert_eq!(view.data[0].quota, -1);
}

#[test]
fn problem_creation_is_atomic_per_request() {
    let mut users = UserStore::new();
    let teacher = staff(&mut users, "teacher", Role::Teacher);
    let mut problems = ProblemStore::new();
    let p = add_problem(&mut problems, &teacher, "A + B", Visibility::Show);
    // the problem, its description and its tasks all landed together
    assert!(problems.find_by_id(p.id).is_ok());
    assert!(problems.find_description(p.description_id).is_ok());
    let tasks = problems.tasks(p.id);
    assert_eq!(tasks.len(), 1);
    assert_eq!(tasks[0].test_case_count, 1);
}
