//! The problem integrity service: transactional problem creation, the
//! listing window, and the stored test-case archive reference.

pub mod descriptions;
pub mod tasks;

use vstd::prelude::*;

use crate::error::DomainError;
use crate::role::spec_is_staff;
use crate::seqtools::{lemma_find_hit, lemma_find_none, lemma_find_step, spec_find, spec_window};
use crate::users::User;
use descriptions::Description;
use tasks::ProblemTask;

verus! {

/// Whether a problem is listed publicly: `Show = 0`, `Hidden = 1`.
#[derive(Clone, Copy, Debug, PartialEq, Eq, Structural)]
pub enum Visibility {
    Show,
    Hidden,
}

pub open spec fn spec_visibility_to_int(v: Visibility) -> i32 {
    match v {
        Visibility::Show => 0,
        Visibility::Hidden => 1,
    }
}

pub open spec fn spec_int_to_visibility(i: i32) -> Option<Visibility> {
    if i == 0 {
        Some(Visibility::Show)
    } else if i == 1 {
        Some(Visibility::Hidden)
    } else {
        None
    }
}

impl Visibility {
    /// Encodes the visibility as its canonical integer.
    pub fn to_int(&self) -> (i: i32)
        ensures
            i == spec_visibility_to_int(*self),
    {
        match self {
            Visibility::Show => 0,
            Visibility::Hidden => 1,
        }
    }

    /// Decodes an integer; values outside the closed set are rejected.
    pub fn from_int(i: i32) -> (r: Option<Visibility>)
        ensures
            r == spec_int_to_visibility(i),
    {
        match i {
            0 => Some(Visibility::Show),
            1 => Some(Visibility::Hidden),
            _ => None,
        }
    }
}

/// The kind of problem: `Normal = 0`, `FillInTemplate = 1`,
/// `Handwritten = 2`.
#[derive(Clone, Copy, Debug, PartialEq, Eq, Structural)]
pub enum Type {
    Normal,
    FillInTemplate,
    Handwritten,
}

pub open spec fn spec_type_to_int(t: Type) -> i32 {
    match t {
        Type::Normal => 0,
        Type::FillInTemplate => 1,
        Type::Handwritten => 2,
    }
}

pub open spec fn spec_int_to_type(i: i32) -> Option<Type> {
    if i == 0 {
        Some(Type::Normal)
    } else if i == 1 {
        Some(Type::FillInTemplate)
    } else if i == 2 {
        Some(Type::Handwritten)
    } else {
        None
    }
}

impl Type {
    /// Encodes the kind as its canonical integer.
    pub fn to_int(&self) -> (i: i32)
        ensures
            i == spec_type_to_int(*self),
    {
        match self {
            Type::Normal => 0,
            Type::FillInTemplate => 1,
            Type::Handwritten => 2,
        }
    }

    /// Decodes an integer; values outside the closed set are rejected.
    pub fn from_int(i: i32) -> (r: Option<Type>)
        ensures
            r == spec_int_to_type(i),
    {
        match i {
            0 => Some(Type::Normal),
            1 => Some(Type::FillInTemplate),
            2 => Some(Type::Handwritten),
            _ => None,
        }
    }
}

/// One stored problem row. `test_case_id` names the validated archive in
/// the artifact store and is set only after a validation succeeded.
#[derive(Debug)]
pub struct Problem {
    pub id: i32,
    pub name: String,
    pub owner_id: i32,
    pub kind: Type,
    pub status: Visibility,
    pub description_id: i32,
    pub allowed_language: i32,
    pub quota: i32,
    pub test_case_id: Option<String>,
    pub created_at: i64,
    pub updated_at: i64,
}

impl Clone for Problem {
    fn clone(&self) -> (res: Self)
        ensures
            res == *self,
    {
        Problem {
            id: self.id,
            name: self.name.clone(),
            owner_id: self.owner_id,
            kind: self.kind,
            status: self.status,
            description_id: self.description_id,
            allowed_language: self.allowed_language,
            quota: self.quota,
            test_case_id: match &self.test_case_id {
                Some(s) => Some(s.clone()),
                None => None,
            },
            created_at: self.created_at,
            updated_at: self.updated_at,
        }
    }
}

/// What a new problem supplies. Omitted options fall back to the schema
/// defaults: kind `Normal`, status `Show`, all three languages allowed
/// (`7`), unlimited quota (`-1`).
#[derive(Debug)]
pub struct AddParams {
    pub owner: User,
    /// Names of courses to attach the problem to (not modelled further,
    /// matching the service this stands in for).
    pub courses: Vec<String>,
    pub name: String,
    pub status: Option<Visibility>,
    pub description: descriptions::AddParams,
    pub kind: Option<Type>,
    pub allowed_language: Option<i32>,
    pub quota: Option<i32>,
    pub tasks: Vec<tasks::AddParams>,
}

/// How a listing is narrowed and windowed. A negative `count` means "no
/// limit"; an absent one means the default page of ten.
#[derive(Debug)]
pub struct ListParams {
    pub viewer: User,
    pub offset: Option<usize>,
    pub count: Option<i32>,
    pub name: Option<String>,
    pub tags: Option<Vec<String>>,
    pub course: Option<String>,
}

/// Matches a problem by exact name.
pub open spec fn by_problem_name(name: Seq<char>) -> spec_fn(Problem) -> bool {
    |p: Problem| p.name@ == name
}

/// Matches a problem by id.
pub open spec fn by_problem_id(id: i32) -> spec_fn(Problem) -> bool {
    |p: Problem| p.id == id
}

/// Matches a description by id.
pub open spec fn by_description_id(id: i32) -> spec_fn(Description) -> bool {
    |d: Description| d.id == id
}

/// The tasks of problem `pid`, in store (creation) order.
pub open spec fn spec_tasks_of(s: Seq<ProblemTask>, pid: i32) -> Seq<ProblemTask>
    decreases s.len(),
{
    if s.len() == 0 {
        Seq::empty()
    } else {
        let rest = spec_tasks_of(s.drop_first(), pid);
        if s[0].problem_id == pid {
            seq![s[0]] + rest
        } else {
            rest
        }
    }
}

/// When a prefix of `s` has no task of `pid` and the remainder has only
/// tasks of `pid`, the filter returns exactly that remainder.
pub proof fn lemma_tasks_of_split(s: Seq<ProblemTask>, pid: i32, k: int)
    requires
        0 <= k <= s.len(),
        forall|i: int| 0 <= i < k ==> (#[trigger] s[i]).problem_id != pid,
        forall|i: int| k <= i < s.len() ==> (#[trigger] s[i]).problem_id == pid,
    ensures
        spec_tasks_of(s, pid) == s.skip(k),
    decreases s.len(),
{
    if s.len() == 0 {
        assert(s.skip(k) =~= Seq::<ProblemTask>::empty());
    } else if k == 0 {
        lemma_tasks_of_split(s.drop_first(), pid, 0);
        assert(s.drop_first().skip(0) =~= s.drop_first());
        assert(seq![s[0]] + s.drop_first() =~= s);
        assert(s.skip(0) =~= s);
    } else {
        lemma_tasks_of_split(s.drop_first(), pid, k - 1);
        assert(s.drop_first().skip(k - 1) =~= s.skip(k));
    }
}

/// Whether the viewer may see the problem in a listing: public problems
/// are visible to everyone, hidden ones only to their owner.
pub open spec fn spec_visible_to(p: Problem, viewer_id: i32) -> bool {
    p.status == Visibility::Show || p.owner_id == viewer_id
}

/// Whether the problem passes the listing's name filter and is visible.
pub open spec fn spec_listing_match(p: Problem, viewer_id: i32, name: Option<String>) -> bool {
    &&& match name {
        Some(nm) => p.name@ == nm@,
        None => true,
    }
    &&& spec_visible_to(p, viewer_id)
}

/// The problems a listing considers, in store (id) order, before
/// windowing.
pub open spec fn spec_problems_listed(
    s: Seq<Problem>,
    viewer_id: i32,
    name: Option<String>,
) -> Seq<Problem>
    decreases s.len(),
{
    if s.len() == 0 {
        Seq::empty()
    } else {
        let rest = spec_problems_listed(s.drop_first(), viewer_id, name);
        if spec_listing_match(s[0], viewer_id, name) {
            seq![s[0]] + rest
        } else {
            rest
        }
    }
}

/// The in-memory problem store: problems, their descriptions and their
/// tasks, with the next id of each.
#[derive(Debug)]
pub struct ProblemStore {
    pub problems: Vec<Problem>,
    pub descriptions: Vec<Description>,
    pub tasks: Vec<ProblemTask>,
    pub next_problem_id: i32,
    pub next_description_id: i32,
    pub next_task_id: i32,
}

impl ProblemStore {
    /// Unique problem names; strictly increasing problem, description and
    /// task ids (so store order is ascending id order); every id below
    /// its next counter; every problem's description exists; every task's
    /// problem reference below the next problem id.
    pub open spec fn wf(self) -> bool {
        &&& forall|i: int, j: int|
            0 <= i < j < self.problems@.len() ==> (#[trigger] self.problems@[i]).name@ != (
            #[trigger] self.problems@[j]).name@ && self.problems@[i].id < self.problems@[j].id
        &&& forall|i: int|
            0 <= i < self.problems@.len() ==> (#[trigger] self.problems@[i]).id
                < self.next_problem_id
        &&& forall|i: int, j: int|
            0 <= i < j < self.descriptions@.len() ==> (#[trigger] self.descriptions@[i]).id < (
            #[trigger] self.descriptions@[j]).id
        &&& forall|i: int|
            0 <= i < self.descriptions@.len() ==> (#[trigger] self.descriptions@[i]).id
                < self.next_description_id
        &&& forall|i: int, j: int|
            0 <= i < j < self.tasks@.len() ==> (#[trigger] self.tasks@[i]).id < (
            #[trigger] self.tasks@[j]).id
        &&& forall|i: int|
            0 <= i < self.tasks@.len() ==> (#[trigger] self.tasks@[i]).id < self.next_task_id
        &&& forall|i: int|
            0 <= i < self.tasks@.len() ==> (#[trigger] self.tasks@[i]).problem_id
                < self.next_problem_id
        &&& forall|i: int|
            0 <= i < self.problems@.len() ==> spec_find(
                self.descriptions@,
                by_description_id((#[trigger] self.problems@[i]).description_id),
            ) is Some
        &&& 0 <= self.next_problem_id
        &&& 0 <= self.next_description_id
        &&& 0 <= self.next_task_id
    }

    /// An empty store.
    pub fn new() -> (s: Self)
        ensures
            s.problems@.len() == 0,
            s.descriptions@.len() == 0,
            s.tasks@.len() == 0,
            s.wf(),
    {
        ProblemStore {
            problems: Vec::new(),
            descriptions: Vec::new(),
            tasks: Vec::new(),
            next_problem_id: 1,
            next_description_id: 1,
            next_task_id: 1,
        }
    }

    /// Position of the problem with this id.
    fn index_of_problem(&self, id: i32) -> (r: Option<usize>)
        ensures
            match r {
                Some(k) => {
                    &&& k < self.problems@.len()
                    &&& spec_find(self.problems@, by_problem_id(id)) == Some(
                        self.problems@[k as int],
                    )
                    &&& self.problems@[k as int].id == id
                },
                None => spec_find(self.problems@, by_problem_id(id)) is None,
            },
    {
        let ghost p = by_problem_id(id);
        let n = self.problems.len();
        assert(self.problems@.skip(0) =~= self.problems@);
        for k in 0..n
            invariant
                n == self.problems@.len(),
                p == by_problem_id(id),
                spec_find(self.problems@, p) == spec_find(self.problems@.skip(k as int), p),
        {
            if self.problems[k].id == id {
                proof {
                    lemma_find_hit(self.problems@, p, k as int);
                }
                return Some(k);
            }
            proof {
                lemma_find_step(self.problems@, p, k as int);
            }
        }
        proof {
            assert(self.problems@.skip(n as int) =~= Seq::<Problem>::empty());
        }
        None
    }

    /// Finds a problem by id.
    pub fn find_by_id(&self, id: i32) -> (r: Result<&Problem, DomainError>)
        ensures
            match r {
                Ok(p) => spec_find(self.problems@, by_problem_id(id)) == Some(*p),
                Err(e) => {
                    &&& e == DomainError::NotFound
                    &&& spec_find(self.problems@, by_problem_id(id)) is None
                },
            },
    {
        match self.index_of_problem(id) {
            Some(k) => Ok(&self.problems[k]),
            None => Err(DomainError::NotFound),
        }
    }

    /// Finds a description by id.
    pub fn find_description(&self, id: i32) -> (r: Result<&Description, DomainError>)
        ensures
            match r {
                Ok(d) => spec_find(self.descriptions@, by_description_id(id)) == Some(*d),
                Err(e) => {
                    &&& e == DomainError::NotFound
                    &&& spec_find(self.descriptions@, by_description_id(id)) is None
                },
            },
    {
        let ghost p = by_description_id(id);
        let n = self.descriptions.len();
        assert(self.descriptions@.skip(0) =~= self.descriptions@);
        for k in 0..n
            invariant
                n == self.descriptions@.len(),
                p == by_description_id(id),
                spec_find(self.descriptions@, p) == spec_find(self.descriptions@.skip(k as int), p),
        {
            if self.descriptions[k].id == id {
                proof {
                    lemma_find_hit(self.descriptions@, p, k as int);
                }
                return Ok(&self.descriptions[k]);
            }
            proof {
                lemma_find_step(self.descriptions@, p, k as int);
            }
        }
        proof {
            assert(self.descriptions@.skip(n as int) =~= Seq::<Description>::empty());
        }
        Err(DomainError::NotFound)
    }

    /// The tasks of problem `problem_id`, in creation order. Their
    /// zero-based position in this vector is the task index that drives
    /// the expected archive file names.
    pub fn tasks(&self, problem_id: i32) -> (v: Vec<ProblemTask>)
        ensures
            v@ == spec_tasks_of(self.tasks@, problem_id),
    {
        let mut v: Vec<ProblemTask> = Vec::new();
        let n = self.tasks.len();
        assert(self.tasks@.skip(0) =~= self.tasks@);
        for k in 0..n
            invariant
                n == self.tasks@.len(),
                spec_tasks_of(self.tasks@, problem_id) =~= v@ + spec_tasks_of(
                    self.tasks@.skip(k as int),
                    problem_id,
                ),
        {
            proof {
                assert(self.tasks@.skip(k as int)[0] == self.tasks@[k as int]);
                assert(self.tasks@.skip(k as int).drop_first() =~= self.tasks@.skip(k as int + 1));
            }
            if self.tasks[k].problem_id == problem_id {
                v.push(self.tasks[k]);
                proof {
                    assert(spec_tasks_of(self.tasks@, problem_id) =~= v@ + spec_tasks_of(
                        self.tasks@.skip(k as int + 1),
                        problem_id,
                    ));
                }
            }
        }
        proof {
            assert(self.tasks@.skip(n as int) =~= Seq::<ProblemTask>::empty());
            assert(v@ =~= spec_tasks_of(self.tasks@, problem_id));
        }
        v
    }
}

} // verus!

verus! {

impl ProblemStore {
    /// Creates a problem together with its description and tasks in one
    /// all-or-nothing step: nothing is inserted unless everything is.
    ///
    /// Only a teacher or admin may create problems; a student always
    /// receives `PermissionDenied` and no rows are inserted. A taken
    /// problem name is refused as `AlreadyExists`. Task order is kept:
    /// the caller's i-th task becomes the problem's task index i.
    #[verifier::loop_isolation(false)]
    pub fn add(&mut self, params: &AddParams, now: i64) -> (r: Result<Problem, DomainError>)
        requires
            old(self).wf(),
        ensures
            final(self).wf(),
            r is Err ==> *final(self) == *old(self),
            !spec_is_staff(params.owner.role) ==> r == Err::<Problem, DomainError>(
                DomainError::PermissionDenied,
            ),
            (spec_is_staff(params.owner.role) && spec_find(
                old(self).problems@,
                by_problem_name(params.name@),
            ) is Some) ==> r == Err::<Problem, DomainError>(DomainError::AlreadyExists),
            match r {
                Ok(p) => {
                    &&& spec_is_staff(params.owner.role)
                    &&& spec_find(old(self).problems@, by_problem_name(params.name@)) is None
                    &&& p.id == old(self).next_problem_id
                    &&& p.name@ == params.name@
                    &&& p.owner_id == params.owner.id
                    &&& p.kind == (match params.kind {
                        Some(t) => t,
                        None => Type::Normal,
                    })
                    &&& p.status == (match params.status {
                        Some(s) => s,
                        None => Visibility::Show,
                    })
                    &&& p.allowed_language == (match params.allowed_language {
                        Some(a) => a,
                        None => 7i32,
                    })
                    &&& p.quota == (match params.quota {
                        Some(q) => q,
                        None => -1i32,
                    })
                    &&& p.description_id == old(self).next_description_id
                    &&& p.test_case_id is None
                    &&& p.created_at == now
                    &&& p.updated_at == now
                    &&& final(self).problems@ == old(self).problems@.push(p)
                    &&& final(self).descriptions@.len() == old(self).descriptions@.len() + 1
                    &&& final(self).descriptions@.subrange(0, old(self).descriptions@.len() as int)
                        == old(self).descriptions@
                    &&& {
                        let d = final(self).descriptions@.last();
                        &&& d.id == p.description_id
                        &&& d.description@ == params.description.description@
                        &&& d.input@ == params.description.input@
                        &&& d.output@ == params.description.output@
                        &&& d.hint@ == params.description.hint@
                        &&& d.sample_input@ == params.description.sample_input@
                        &&& d.sample_output@ == params.description.sample_output@
                        &&& d.created_at == now
                        &&& d.updated_at == now
                    }
                    &&& final(self).tasks@.len() == old(self).tasks@.len() + params.tasks@.len()
                    &&& final(self).tasks@.subrange(0, old(self).tasks@.len() as int) == old(
                        self,
                    ).tasks@
                    &&& forall|i: int|
                        0 <= i < params.tasks@.len() ==> {
                            let t = #[trigger] final(self).tasks@[old(self).tasks@.len() + i];
                            &&& t.problem_id == p.id
                            &&& t.test_case_count == params.tasks@[i].test_case_count
                            &&& t.score == params.tasks@[i].score
                            &&& t.time_limit == params.tasks@[i].time_limit
                            &&& t.memory_limit == params.tasks@[i].memory_limit
                        }
                    &&& spec_tasks_of(final(self).tasks@, p.id) == final(self).tasks@.skip(
                        old(self).tasks@.len() as int,
                    )
                },
                Err(e) => match e {
                    DomainError::PermissionDenied => !spec_is_staff(params.owner.role),
                    DomainError::AlreadyExists => {
                        &&& spec_is_staff(params.owner.role)
                        &&& spec_find(old(self).problems@, by_problem_name(params.name@)) is Some
                    },
                    DomainError::Internal => {
                        &&& spec_is_staff(params.owner.role)
                        &&& spec_find(old(self).problems@, by_problem_name(params.name@)) is None
                        &&& (old(self).next_problem_id == i32::MAX || old(self).next_description_id
                            == i32::MAX || params.tasks@.len() > i32::MAX - old(
                            self,
                        ).next_task_id)
                    },
                    _ => false,
                },
            },
    {
        if !crate::role::is_staff(&params.owner.role) {
            return Err(DomainError::PermissionDenied);
        }
        // refuse a taken name before touching anything
        let ghost np = by_problem_name(params.name@);
        let n = self.problems.len();
        assert(self.problems@.skip(0) =~= self.problems@);
        for k in 0..n
            invariant
                spec_find(self.problems@, np) == spec_find(self.problems@.skip(k as int), np),
        {
            if self.problems[k].name == params.name {
                proof {
                    lemma_find_hit(self.problems@, np, k as int);
                }
                return Err(DomainError::AlreadyExists);
            }
            proof {
                lemma_find_step(self.problems@, np, k as int);
            }
        }
        proof {
            assert(self.problems@.skip(n as int) =~= Seq::<Problem>::empty());
            assert(spec_find(self.problems@, np) is None);
        }
        let m = params.tasks.len();
        if self.next_problem_id == i32::MAX || self.next_description_id == i32::MAX || m > (i32::MAX
            - self.next_task_id) as usize {
            return Err(DomainError::Internal);
        }
        let ghost old_problems = self.problems@;
        let ghost old_descriptions = self.descriptions@;
        let ghost old_tasks = self.tasks@;
        let d = Description {
            id: self.next_description_id,
            description: params.description.description.clone(),
            input: params.description.input.clone(),
            output: params.description.output.clone(),
            hint: params.description.hint.clone(),
            sample_input: descriptions::clone_strings(&params.description.sample_input),
            sample_output: descriptions::clone_strings(&params.description.sample_output),
            created_at: now,
            updated_at: now,
        };
        let ghost gd = d;
        self.descriptions.push(d);
        self.next_description_id = self.next_description_id + 1;
        let p = Problem {
            id: self.next_problem_id,
            name: params.name.clone(),
            owner_id: params.owner.id,
            kind: match params.kind {
                Some(t) => t,
                None => Type::Normal,
            },
            status: match params.status {
                Some(s) => s,
                None => Visibility::Show,
            },
            description_id: self.next_description_id - 1,
            allowed_language: match params.allowed_language {
                Some(a) => a,
                None => 7,
            },
            quota: match params.quota {
                Some(q) => q,
                None => -1,
            },
            test_case_id: None,
            created_at: now,
            updated_at: now,
        };
        let ret = p.clone();
        self.problems.push(p);
        self.next_problem_id = self.next_problem_id + 1;
        let ghost task_base = self.next_task_id;
        for i in 0..m
            invariant
                self.problems@ == old_problems.push(ret),
                self.descriptions@ == old_descriptions.push(gd),
                self.next_description_id == old(self).next_description_id + 1,
                self.next_problem_id == old(self).next_problem_id + 1,
                self.tasks@.len() == old_tasks.len() + i,
                self.tasks@.subrange(0, old_tasks.len() as int) == old_tasks,
                self.next_task_id == task_base + i,
                forall|j: int|
                    0 <= j < i ==> {
                        let t = #[trigger] self.tasks@[old_tasks.len() + j];
                        &&& t.problem_id == ret.id
                        &&& t.id == task_base + j
                        &&& t.test_case_count == params.tasks@[j].test_case_count
                        &&& t.score == params.tasks@[j].score
                        &&& t.time_limit == params.tasks@[j].time_limit
                        &&& t.memory_limit == params.tasks@[j].memory_limit
                    },
                forall|a: int, b: int|
                    0 <= a < b < self.tasks@.len() ==> (#[trigger] self.tasks@[a]).id < (
                    #[trigger] self.tasks@[b]).id,
                forall|a: int|
                    0 <= a < self.tasks@.len() ==> (#[trigger] self.tasks@[a]).id
                        < self.next_task_id,
        {
            let tp = params.tasks[i];
            let t = ProblemTask {
                id: self.next_task_id,
                problem_id: ret.id,
                test_case_count: tp.test_case_count,
                score: tp.score,
                time_limit: tp.time_limit,
                memory_limit: tp.memory_limit,
            };
            self.tasks.push(t);
            self.next_task_id = self.next_task_id + 1;
            proof {
                assert(self.tasks@.subrange(0, old_tasks.len() as int) =~= old_tasks);
            }
        }
        proof {
            let fp = self.problems@;
            let fd = self.descriptions@;
            let ft = self.tasks@;
            lemma_find_none(old_problems, np);
            // problem names and ids stay unique
            assert forall|i: int, j: int|
                0 <= i < j < fp.len() implies fp[i].name@ != fp[j].name@ && fp[i].id
                < fp[j].id by {
                if j < fp.len() - 1 {
                    assert(old_problems[i] == fp[i] && old_problems[j] == fp[j]);
                } else {
                    assert(fp[j] == ret);
                    assert(!np(old_problems[i]));
                    assert(old_problems[i].id < old(self).next_problem_id);
                }
            }
            // description ids stay unique
            assert forall|i: int, j: int|
                0 <= i < j < fd.len() implies fd[i].id < fd[j].id by {
                if j < fd.len() - 1 {
                    assert(old_descriptions[i] == fd[i] && old_descriptions[j] == fd[j]);
                } else {
                    assert(fd[j] == gd);
                    assert(old_descriptions[i].id < old(self).next_description_id);
                }
            }
            // every problem still refers to a stored description
            assert forall|i: int|
                0 <= i < fp.len() implies spec_find(
                fd,
                by_description_id((#[trigger] fp[i]).description_id),
            ) is Some by {
                crate::seqtools::lemma_find_push(
                    old_descriptions,
                    by_description_id(fp[i].description_id),
                    gd,
                );
                if i < fp.len() - 1 {
                    assert(old_problems[i] == fp[i]);
                    assert(spec_find(
                        old_descriptions,
                        by_description_id(old_problems[i].description_id),
                    ) is Some);
                } else {
                    assert(fp[i] == ret);
                    assert(by_description_id(ret.description_id)(gd));
                }
            }
            // the new problem's tasks are exactly the appended suffix
            assert forall|i: int| 0 <= i < old_tasks.len() implies (#[trigger] ft[i]).problem_id
                != ret.id by {
                assert(old_tasks[i] == ft[i]);
                assert(old_tasks[i].problem_id < old(self).next_problem_id);
            }
            assert forall|i: int|
                old_tasks.len() <= i < ft.len() implies (#[trigger] ft[i]).problem_id
                == ret.id by {
                let j = i - old_tasks.len();
                assert(ft[old_tasks.len() + j].problem_id == ret.id);
            }
            assert forall|i: int| 0 <= i < ft.len() implies (#[trigger] ft[i]).problem_id
                < self.next_problem_id by {
                if i < old_tasks.len() {
                    assert(old_tasks[i] == ft[i]);
                    assert(old_tasks[i].problem_id < old(self).next_problem_id);
                } else {
                    assert(ft[i].problem_id == ret.id);
                }
            }
            lemma_tasks_of_split(ft, ret.id, old_tasks.len() as int);
            assert(fd.subrange(0, old_descriptions.len() as int) =~= old_descriptions);
        }
        Ok(ret)
    }

    /// Lists problems: an optional exact-name filter, then the visibility
    /// rule (hidden problems are shown only to their owner), then the
    /// offset/count window, in id order. An absent count falls back to a
    /// page of ten; a negative one means no limit.
    pub fn list(&self, params: &ListParams) -> (v: Vec<Problem>)
        ensures
            ({
                let filtered = spec_problems_listed(self.problems@, params.viewer.id, params.name);
                let offset = match params.offset {
                    Some(o) => o as int,
                    None => 0int,
                };
                let count = match params.count {
                    Some(c) => if c < 0 {
                        filtered.len() as int
                    } else {
                        c as int
                    },
                    None => 10int,
                };
                v@ == spec_window(filtered, offset, count)
            }),
    {
        let mut all: Vec<Problem> = Vec::new();
        let n = self.problems.len();
        assert(self.problems@.skip(0) =~= self.problems@);
        for k in 0..n
            invariant
                n == self.problems@.len(),
                spec_problems_listed(self.problems@, params.viewer.id, params.name) =~= all@
                    + spec_problems_listed(
                    self.problems@.skip(k as int),
                    params.viewer.id,
                    params.name,
                ),
        {
            let p = &self.problems[k];
            let name_ok = match &params.name {
                Some(nm) => p.name == *nm,
                None => true,
            };
            let visible = match p.status {
                Visibility::Show => true,
                Visibility::Hidden => p.owner_id == params.viewer.id,
            };
            proof {
                assert(self.problems@.skip(k as int)[0] == self.problems@[k as int]);
                assert(self.problems@.skip(k as int).drop_first() =~= self.problems@.skip(
                    k as int + 1,
                ));
            }
            if name_ok && visible {
                all.push(self.problems[k].clone());
                proof {
                    assert(spec_problems_listed(self.problems@, params.viewer.id, params.name)
                        =~= all@ + spec_problems_listed(
                        self.problems@.skip(k as int + 1),
                        params.viewer.id,
                        params.name,
                    ));
                }
            }
        }
        proof {
            assert(self.problems@.skip(n as int) =~= Seq::<Problem>::empty());
            assert(all@ =~= spec_problems_listed(self.problems@, params.viewer.id, params.name));
        }
        let total = all.len();
        let offset = match params.offset {
            Some(o) => o,
            None => 0,
        };
        let count_unlimited = match params.count {
            Some(c) => c < 0,
            None => false,
        };
        let start = if offset > total {
            total
        } else {
            offset
        };
        let end = if count_unlimited {
            total
        } else {
            let count = match params.count {
                Some(c) => c as usize,
                None => 10,
            };
            if count > total - start {
                total
            } else {
                start + count
            }
        };
        let mut v: Vec<Problem> = Vec::new();
        for k in start..end
            invariant
                end <= total,
                total == all@.len(),
                start <= k <= end,
                v@ =~= all@.subrange(start as int, k as int),
        {
            v.push(all[k].clone());
        }
        proof {
            let filtered = all@;
            let goal_offset = match params.offset {
                Some(o) => o as int,
                None => 0int,
            };
            let goal_count = match params.count {
                Some(c) => if c < 0 {
                    filtered.len() as int
                } else {
                    c as int
                },
                None => 10int,
            };
            assert(v@ =~= spec_window(filtered, goal_offset, goal_count));
        }
        v
    }

    /// Stores (or clears) the problem's reference to a validated test-case
    /// archive. Only this reference changes; the archive bytes themselves
    /// live in the artifact store.
    pub fn update_test_case_id(&mut self, problem_id: i32, test_case_id: Option<String>) -> (r:
        Result<Problem, DomainError>)
        requires
            old(self).wf(),
        ensures
            final(self).wf(),
            final(self).descriptions@ == old(self).descriptions@,
            final(self).tasks@ == old(self).tasks@,
            final(self).next_problem_id == old(self).next_problem_id,
            match r {
                Ok(p) => {
                    &&& spec_find(old(self).problems@, by_problem_id(problem_id)) matches Some(w)
                        && p == (Problem { test_case_id: p.test_case_id, ..w })
                    &&& p.test_case_id == test_case_id
                    &&& exists|k: int|
                        0 <= k < old(self).problems@.len() && old(self).problems@[k] == spec_find(
                            old(self).problems@,
                            by_problem_id(problem_id),
                        )->0 && final(self).problems@ == old(self).problems@.update(k, p)
                },
                Err(e) => {
                    &&& e == DomainError::NotFound
                    &&& spec_find(old(self).problems@, by_problem_id(problem_id)) is None
                    &&& *final(self) == *old(self)
                },
            },
    {
        match self.index_of_problem(problem_id) {
            None => Err(DomainError::NotFound),
            Some(k) => {
                let ghost prev = self.problems@;
                let mut p = self.problems[k].clone();
                p.test_case_id = test_case_id;
                let r = p.clone();
                self.problems.set(k, p);
                proof {
                    let s1 = self.problems@;
                    assert forall|i: int, j: int|
                        0 <= i < j < s1.len() implies s1[i].name@ != s1[j].name@ && s1[i].id
                        < s1[j].id by {
                        assert(prev[i].name@ != prev[j].name@ && prev[i].id < prev[j].id);
                    }
                    assert forall|i: int| 0 <= i < s1.len() implies (#[trigger] s1[i]).id
                        < self.next_problem_id by {
                        assert(prev[i].id < self.next_problem_id);
                    }
                    assert forall|i: int|
                        0 <= i < s1.len() implies spec_find(
                        self.descriptions@,
                        by_description_id((#[trigger] s1[i]).description_id),
                    ) is Some by {
                        assert(s1[i].description_id == prev[i].description_id);
                        assert(spec_find(
                            self.descriptions@,
                            by_description_id(prev[i].description_id),
                        ) is Some);
                    }
                }
                Ok(r)
            },
        }
    }
}

} // verus!
