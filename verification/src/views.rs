//! Response shaping: the envelope every endpoint answers with, and the
//! flattened views of users, problems and submissions.

use vstd::prelude::*;

use crate::problems::descriptions::Description;
use crate::problems::tasks::ProblemTask;
use crate::problems::{Problem, Type, Visibility};
use crate::role::{role_to_int, spec_role_to_int};
use crate::status::spec_status_to_int;
use crate::submissions::Submission;
use crate::users::User;
use crate::language::spec_language_to_int;

verus! {

/// The response envelope: a payload and a human-readable message.
#[derive(Debug)]
pub struct NojResponse<T> {
    pub data: T,
    pub message: String,
}

/// Builds a [`NojResponse`], with an empty message unless one is set.
#[derive(Debug)]
pub struct NojResponseBuilder<T> {
    pub data: T,
    pub message: String,
}

impl<T> NojResponseBuilder<T> {
    /// Starts an envelope around `data` with an empty message.
    pub fn new(data: T) -> (r: Self)
        ensures
            r.data == data,
            r.message@ == Seq::<char>::empty(),
    {
        NojResponseBuilder { data, message: String::new() }
    }

    /// Replaces the message.
    pub fn message(self, message: String) -> (r: Self)
        ensures
            r.data == self.data,
            r.message == message,
    {
        NojResponseBuilder { data: self.data, message }
    }

    /// Seals the envelope.
    pub fn done(self) -> (r: NojResponse<T>)
        ensures
            r.data == self.data,
            r.message == self.message,
    {
        NojResponse { data: self.data, message: self.message }
    }
}

/// The signed-in user's own identity view.
#[derive(Debug)]
pub struct CurrentResponse {
    pub pid: String,
    pub name: String,
    pub email: String,
}

impl CurrentResponse {
    /// Flattens a user to what the session endpoint reveals.
    pub fn new(user: &User) -> (r: Self)
        ensures
            r.pid == user.pid,
            r.name == user.name,
            r.email == user.email,
    {
        CurrentResponse { pid: user.pid.clone(), name: user.name.clone(), email: user.email.clone() }
    }
}

/// The public view of a user: name and encoded role; the displayed name
/// mirrors the username until profiles carry one of their own.
#[derive(Debug)]
pub struct UserInfoResponse {
    pub username: String,
    pub displayed_name: String,
    pub role: i32,
}

impl UserInfoResponse {
    /// Flattens a user, encoding the role canonically.
    pub fn new(user: &User) -> (r: Self)
        ensures
            r.username == user.name,
            r.displayed_name == user.name,
            r.role == spec_role_to_int(user.role),
    {
        UserInfoResponse {
            username: user.name.clone(),
            displayed_name: user.name.clone(),
            role: role_to_int(&user.role),
        }
    }
}

/// One row of a submission listing, with its submitter flattened in.
#[derive(Debug)]
pub struct SubmissionListResponseItem {
    pub id: i32,
    pub user: UserInfoResponse,
    pub problem_id: i32,
    pub timestamp: i64,
    pub score: i32,
    pub exec_time: i32,
    pub memory_usage: i32,
    pub code: String,
    pub last_send: i64,
    pub status: i32,
    pub language: i32,
}

/// Builds the submission listing from matching rows of submissions and
/// their submitters.
#[derive(Debug)]
pub struct SubmissionListResponse {}

impl SubmissionListResponse {
    /// Pairs each submission with its submitter, encoding status and
    /// language canonically. The two slices walk together; the shorter
    /// one bounds the result.
    pub fn new(submissions: &Vec<Submission>, users: &Vec<User>) -> (r: NojResponseBuilder<
        Vec<SubmissionListResponseItem>,
    >)
        ensures
            r.message@ == Seq::<char>::empty(),
            r.data@.len() == (if submissions@.len() <= users@.len() {
                submissions@.len()
            } else {
                users@.len()
            }),
            forall|i: int|
                0 <= i < r.data@.len() ==> {
                    let item = #[trigger] r.data@[i];
                    &&& item.id == submissions@[i].id
                    &&& item.user.username == users@[i].name
                    &&& item.user.role == spec_role_to_int(users@[i].role)
                    &&& item.problem_id == submissions@[i].problem_id
                    &&& item.timestamp == submissions@[i].timestamp
                    &&& item.score == submissions@[i].score
                    &&& item.exec_time == submissions@[i].exec_time
                    &&& item.memory_usage == submissions@[i].memory_usage
                    &&& item.code == submissions@[i].code
                    &&& item.last_send == submissions@[i].last_send
                    &&& item.status == spec_status_to_int(submissions@[i].status)
                    &&& item.language == spec_language_to_int(submissions@[i].language)
                },
    {
        let n = if submissions.len() <= users.len() {
            submissions.len()
        } else {
            users.len()
        };
        let mut data: Vec<SubmissionListResponseItem> = Vec::new();
        for k in 0..n
            invariant
                n <= submissions@.len(),
                n <= users@.len(),
                data@.len() == k,
                forall|i: int|
                    0 <= i < k ==> {
                        let item = #[trigger] data@[i];
                        &&& item.id == submissions@[i].id
                        &&& item.user.username == users@[i].name
                        &&& item.user.role == spec_role_to_int(users@[i].role)
                        &&& item.problem_id == submissions@[i].problem_id
                        &&& item.timestamp == submissions@[i].timestamp
                        &&& item.score == submissions@[i].score
                        &&& item.exec_time == submissions@[i].exec_time
                        &&& item.memory_usage == submissions@[i].memory_usage
                        &&& item.code == submissions@[i].code
                        &&& item.last_send == submissions@[i].last_send
                        &&& item.status == spec_status_to_int(submissions@[i].status)
                        &&& item.language == spec_language_to_int(submissions@[i].language)
                    },
        {
            let s = &submissions[k];
            let u = &users[k];
            data.push(
                SubmissionListResponseItem {
                    id: s.id,
                    user: UserInfoResponse::new(u),
                    problem_id: s.problem_id,
                    timestamp: s.timestamp,
                    score: s.score,
                    exec_time: s.exec_time,
                    memory_usage: s.memory_usage,
                    code: s.code.clone(),
                    last_send: s.last_send,
                    status: s.status.to_int(),
                    language: s.language.to_int(),
                },
            );
        }
        NojResponseBuilder::new(data)
    }
}

/// One row of a problem listing.
#[derive(Debug)]
pub struct ProblemListResponseItem {
    pub id: i32,
    pub name: String,
    pub status: Visibility,
    pub ac_user: i32,
    pub submitter: i32,
    pub tags: Vec<String>,
    pub kind: Type,
    pub quota: i32,
    pub submit_count: i32,
}

/// Builds the problem listing.
#[derive(Debug)]
pub struct ProblemListResponse {}

impl ProblemListResponse {
    /// Flattens each problem to its listing row. Per-problem statistics
    /// and tags are not tracked yet and read zero and empty.
    pub fn new(problems: &Vec<Problem>) -> (r: NojResponseBuilder<Vec<ProblemListResponseItem>>)
        ensures
            r.message@ == Seq::<char>::empty(),
            r.data@.len() == problems@.len(),
            forall|i: int|
                0 <= i < r.data@.len() ==> {
                    let item = #[trigger] r.data@[i];
                    &&& item.id == problems@[i].id
                    &&& item.name == problems@[i].name
                    &&& item.status == problems@[i].status
                    &&& item.kind == problems@[i].kind
                    &&& item.quota == problems@[i].quota
                    &&& item.ac_user == 0
                    &&& item.submitter == 0
                    &&& item.submit_count == 0
                    &&& item.tags@.len() == 0
                },
    {
        let n = problems.len();
        let mut data: Vec<ProblemListResponseItem> = Vec::new();
        for k in 0..n
            invariant
                n == problems@.len(),
                data@.len() == k,
                forall|i: int|
                    0 <= i < k ==> {
                        let item = #[trigger] data@[i];
                        &&& item.id == problems@[i].id
                        &&& item.name == problems@[i].name
                        &&& item.status == problems@[i].status
                        &&& item.kind == problems@[i].kind
                        &&& item.quota == problems@[i].quota
                        &&& item.ac_user == 0
                        &&& item.submitter == 0
                        &&& item.submit_count == 0
                        &&& item.tags@.len() == 0
                    },
        {
            let p = &problems[k];
            data.push(
                ProblemListResponseItem {
                    id: p.id,
                    name: p.name.clone(),
                    status: p.status,
                    ac_user: 0,
                    submitter: 0,
                    tags: Vec::new(),
                    kind: p.kind,
                    quota: p.quota,
                    submit_count: 0,
                },
            );
        }
        NojResponseBuilder::new(data)
    }
}

/// The description block of a problem's detail view.
#[derive(Debug)]
pub struct ProblemDescriptionView {
    pub description: String,
    pub input: String,
    pub output: String,
    pub hint: String,
    pub sample_input: Vec<String>,
    pub sample_output: Vec<String>,
    pub created_at: i64,
    pub updated_at: i64,
}

/// The grading parameters of one task, as the detail view shows them.
#[derive(Debug)]
pub struct ProblemTaskView {
    pub test_case_count: i32,
    pub score: i32,
    pub time_limit: i32,
    pub memory_limit: i32,
}

/// The full detail view of one problem.
#[derive(Debug)]
pub struct ProblemDetailResponse {
    pub problem_name: String,
    pub description: ProblemDescriptionView,
    pub owner: String,
    pub tags: Vec<String>,
    pub allowed_language: i32,
    pub courses: Vec<String>,
    pub quota: i32,
    pub status: Visibility,
    pub kind: Type,
    pub test_case: Vec<ProblemTaskView>,
    pub submit_count: i32,
    pub high_score: i32,
}

impl ProblemDetailResponse {
    /// Assembles the detail view of a problem from its row, its
    /// description, its owner and its tasks, in task order. Tags, courses
    /// and per-problem statistics are not tracked yet and read empty and
    /// zero.
    pub fn new(
        problem: &Problem,
        description: &Description,
        owner: &User,
        tasks: &Vec<ProblemTask>,
    ) -> (r: NojResponseBuilder<ProblemDetailResponse>)
        ensures
            r.message@ == Seq::<char>::empty(),
            r.data.problem_name == problem.name,
            r.data.description.description == description.description,
            r.data.description.input == description.input,
            r.data.description.output == description.output,
            r.data.description.hint == description.hint,
            r.data.description.sample_input@ == description.sample_input@,
            r.data.description.sample_output@ == description.sample_output@,
            r.data.description.created_at == description.created_at,
            r.data.description.updated_at == description.updated_at,
            r.data.owner == owner.name,
            r.data.tags@.len() == 0,
            r.data.allowed_language == problem.allowed_language,
            r.data.courses@.len() == 0,
            r.data.quota == problem.quota,
            r.data.status == problem.status,
            r.data.kind == problem.kind,
            r.data.test_case@.len() == tasks@.len(),
            forall|i: int|
                0 <= i < tasks@.len() ==> {
                    let tv = #[trigger] r.data.test_case@[i];
                    &&& tv.test_case_count == tasks@[i].test_case_count
                    &&& tv.score == tasks@[i].score
                    &&& tv.time_limit == tasks@[i].time_limit
                    &&& tv.memory_limit == tasks@[i].memory_limit
                },
            r.data.submit_count == 0,
            r.data.high_score == 0,
    {
        let n = tasks.len();
        let mut test_case: Vec<ProblemTaskView> = Vec::new();
        for k in 0..n
            invariant
                n == tasks@.len(),
                test_case@.len() == k,
                forall|i: int|
                    0 <= i < k ==> {
                        let tv = #[trigger] test_case@[i];
                        &&& tv.test_case_count == tasks@[i].test_case_count
                        &&& tv.score == tasks@[i].score
                        &&& tv.time_limit == tasks@[i].time_limit
                        &&& tv.memory_limit == tasks@[i].memory_limit
                    },
        {
            let t = &tasks[k];
            test_case.push(
                ProblemTaskView {
                    test_case_count: t.test_case_count,
                    score: t.score,
                    time_limit: t.time_limit,
                    memory_limit: t.memory_limit,
                },
            );
        }
        let d = description.clone();
        let resp = ProblemDetailResponse {
            problem_name: problem.name.clone(),
            description: ProblemDescriptionView {
                description: d.description,
                input: d.input,
                output: d.output,
                hint: d.hint,
                sample_input: d.sample_input,
                sample_output: d.sample_output,
                created_at: d.created_at,
                updated_at: d.updated_at,
            },
            owner: owner.name.clone(),
            tags: Vec::new(),
            allowed_language: problem.allowed_language,
            courses: Vec::new(),
            quota: problem.quota,
            status: problem.status,
            kind: problem.kind,
            test_case,
            submit_count: 0,
            high_score: 0,
        };
        NojResponseBuilder::new(resp)
    }
}

} // verus!
