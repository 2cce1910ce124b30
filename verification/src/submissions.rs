//! The submission tracker: creation, conjunctive filtered listing, and
//! ingestion of results from the external grader.
//!
//! A submission starts `Pending` and leaves that state only when the
//! grader reports a result; no transition leads back, and resubmission
//! always creates a new row. Quota enforcement is deliberately not done
//! here: the grading pipeline owns it.

use vstd::prelude::*;

use crate::error::DomainError;
use crate::language::Language;
use crate::seqtools::{lemma_find_hit, lemma_find_step, spec_find, spec_window};
use crate::status::SubmissionStatus;

verus! {

/// One submission row.
#[derive(Debug)]
pub struct Submission {
    pub id: i32,
    pub user_id: i32,
    pub problem_id: i32,
    pub code: String,
    pub language: Language,
    pub timestamp: i64,
    pub status: SubmissionStatus,
    pub score: i32,
    pub exec_time: i32,
    pub memory_usage: i32,
    pub last_send: i64,
}

impl Clone for Submission {
    fn clone(&self) -> (res: Self)
        ensures
            res == *self,
    {
        Submission {
            id: self.id,
            user_id: self.user_id,
            problem_id: self.problem_id,
            code: self.code.clone(),
            language: self.language,
            timestamp: self.timestamp,
            status: self.status,
            score: self.score,
            exec_time: self.exec_time,
            memory_usage: self.memory_usage,
            last_send: self.last_send,
        }
    }
}

/// What a new submission supplies.
#[derive(Debug)]
pub struct AddParams {
    pub user: i32,
    pub problem: i32,
    pub timestamp: i64,
    pub language: Language,
}

/// The conjunctive listing filter: every given field must match. The
/// window defaults to everything from the start.
#[derive(Debug)]
pub struct ListParams {
    pub offset: Option<usize>,
    pub count: Option<usize>,
    pub problem: Option<i32>,
    pub user: Option<i32>,
    pub status: Option<SubmissionStatus>,
    pub language: Option<Language>,
    pub course: Option<String>,
}

/// Matches a submission by id.
pub open spec fn by_submission_id(id: i32) -> spec_fn(Submission) -> bool {
    |s: Submission| s.id == id
}

/// Whether a submission passes every given filter field.
pub open spec fn spec_submission_match(s: Submission, params: ListParams) -> bool {
    &&& match params.problem {
        Some(p) => s.problem_id == p,
        None => true,
    }
    &&& match params.user {
        Some(u) => s.user_id == u,
        None => true,
    }
    &&& match params.status {
        Some(st) => s.status == st,
        None => true,
    }
    &&& match params.language {
        Some(l) => s.language == l,
        None => true,
    }
}

/// The submissions the filter keeps, in store (id) order.
pub open spec fn spec_submissions_listed(s: Seq<Submission>, params: ListParams) -> Seq<
    Submission,
>
    decreases s.len(),
{
    if s.len() == 0 {
        Seq::empty()
    } else {
        let rest = spec_submissions_listed(s.drop_first(), params);
        if spec_submission_match(s[0], params) {
            seq![s[0]] + rest
        } else {
            rest
        }
    }
}

/// The in-memory submission store.
#[derive(Debug)]
pub struct SubmissionStore {
    pub submissions: Vec<Submission>,
    /// The id the next created submission will take.
    pub next_id: i32,
}

impl SubmissionStore {
    /// Ids strictly increase in store order (so store order is ascending
    /// id order), and every id lies below the next one to be handed out.
    pub open spec fn wf(self) -> bool {
        &&& forall|i: int, j: int|
            0 <= i < j < self.submissions@.len() ==> (#[trigger] self.submissions@[i]).id < (
            #[trigger] self.submissions@[j]).id
        &&& forall|i: int|
            0 <= i < self.submissions@.len() ==> (#[trigger] self.submissions@[i]).id
                < self.next_id
    }

    /// An empty store.
    pub fn new() -> (s: Self)
        ensures
            s.submissions@.len() == 0,
            s.next_id == 1,
            s.wf(),
    {
        SubmissionStore { submissions: Vec::new(), next_id: 1 }
    }

    /// Creates a submission: it starts `Pending` with zero score,
    /// execution time and memory usage, an empty code text, and its send
    /// time stamped `now`.
    pub fn add(&mut self, params: &AddParams, now: i64) -> (r: Result<Submission, DomainError>)
        requires
            old(self).wf(),
        ensures
            final(self).wf(),
            r is Err ==> *final(self) == *old(self),
            match r {
                Ok(s) => {
                    &&& s.id == old(self).next_id
                    &&& s.user_id == params.user
                    &&& s.problem_id == params.problem
                    &&& s.code@ == Seq::<char>::empty()
                    &&& s.language == params.language
                    &&& s.timestamp == params.timestamp
                    &&& s.status == SubmissionStatus::Pending
                    &&& s.score == 0
                    &&& s.exec_time == 0
                    &&& s.memory_usage == 0
                    &&& s.last_send == now
                    &&& final(self).submissions@ == old(self).submissions@.push(s)
                    &&& final(self).next_id == old(self).next_id + 1
                },
                Err(e) => {
                    &&& e == DomainError::Internal
                    &&& old(self).next_id == i32::MAX
                },
            },
    {
        if self.next_id == i32::MAX {
            return Err(DomainError::Internal);
        }
        let s = Submission {
            id: self.next_id,
            user_id: params.user,
            problem_id: params.problem,
            code: String::new(),
            language: params.language,
            timestamp: params.timestamp,
            status: SubmissionStatus::Pending,
            score: 0,
            exec_time: 0,
            memory_usage: 0,
            last_send: now,
        };
        let ghost prev = self.submissions@;
        let r = s.clone();
        self.submissions.push(s);
        self.next_id = self.next_id + 1;
        proof {
            let s1 = self.submissions@;
            assert forall|i: int, j: int| 0 <= i < j < s1.len() implies s1[i].id < s1[j].id by {
                if j < s1.len() - 1 {
                    assert(prev[i].id < prev[j].id);
                } else {
                    assert(prev[i].id < r.id);
                }
            }
            assert forall|i: int| 0 <= i < s1.len() implies (#[trigger] s1[i]).id
                < self.next_id by {
                if i < s1.len() - 1 {
                    assert(prev[i].id < old(self).next_id);
                }
            }
        }
        Ok(r)
    }

    /// Position of the submission with this id.
    fn index_of(&self, id: i32) -> (r: Option<usize>)
        ensures
            match r {
                Some(k) => {
                    &&& k < self.submissions@.len()
                    &&& spec_find(self.submissions@, by_submission_id(id)) == Some(
                        self.submissions@[k as int],
                    )
                    &&& self.submissions@[k as int].id == id
                },
                None => spec_find(self.submissions@, by_submission_id(id)) is None,
            },
    {
        let ghost p = by_submission_id(id);
        let n = self.submissions.len();
        assert(self.submissions@.skip(0) =~= self.submissions@);
        for k in 0..n
            invariant
                n == self.submissions@.len(),
                p == by_submission_id(id),
                spec_find(self.submissions@, p) == spec_find(self.submissions@.skip(k as int), p),
        {
            if self.submissions[k].id == id {
                proof {
                    lemma_find_hit(self.submissions@, p, k as int);
                }
                return Some(k);
            }
            proof {
                lemma_find_step(self.submissions@, p, k as int);
            }
        }
        proof {
            assert(self.submissions@.skip(n as int) =~= Seq::<Submission>::empty());
        }
        None
    }

    /// Finds a submission by id.
    pub fn find_by_id(&self, id: i32) -> (r: Result<&Submission, DomainError>)
        ensures
            match r {
                Ok(s) => spec_find(self.submissions@, by_submission_id(id)) == Some(*s),
                Err(e) => {
                    &&& e == DomainError::NotFound
                    &&& spec_find(self.submissions@, by_submission_id(id)) is None
                },
            },
    {
        match self.index_of(id) {
            Some(k) => Ok(&self.submissions[k]),
            None => Err(DomainError::NotFound),
        }
    }

    /// Ingests the grader's result: overwrites exactly the score,
    /// execution time, memory usage and status, and nothing else. The
    /// status is taken as a parameter so a graded submission can never be
    /// left `Pending` by accident.
    pub fn update_sandbox_result(
        &mut self,
        id: i32,
        score: i32,
        exec_time: i32,
        memory_usage: i32,
        status: SubmissionStatus,
    ) -> (r: Result<Submission, DomainError>)
        requires
            old(self).wf(),
        ensures
            final(self).wf(),
            final(self).next_id == old(self).next_id,
            match r {
                Ok(u) => {
                    &&& spec_find(old(self).submissions@, by_submission_id(id)) matches Some(w) && u
                        == (Submission { score, exec_time, memory_usage, status, ..w })
                    &&& exists|k: int|
                        0 <= k < old(self).submissions@.len() && old(self).submissions@[k]
                            == spec_find(old(self).submissions@, by_submission_id(id))->0 && final(self).submissions@ == old(self).submissions@.update(k, u)
                },
                Err(e) => {
                    &&& e == DomainError::NotFound
                    &&& spec_find(old(self).submissions@, by_submission_id(id)) is None
                    &&& *final(self) == *old(self)
                },
            },
    {
        match self.index_of(id) {
            None => Err(DomainError::NotFound),
            Some(k) => {
                let ghost prev = self.submissions@;
                let mut u = self.submissions[k].clone();
                u.score = score;
                u.exec_time = exec_time;
                u.memory_usage = memory_usage;
                u.status = status;
                let r = u.clone();
                self.submissions.set(k, u);
                proof {
                    let s1 = self.submissions@;
                    assert forall|i: int, j: int|
                        0 <= i < j < s1.len() implies s1[i].id < s1[j].id by {
                        assert(prev[i].id < prev[j].id);
                    }
                    assert forall|i: int| 0 <= i < s1.len() implies (#[trigger] s1[i]).id
                        < self.next_id by {
                        assert(prev[i].id < self.next_id);
                    }
                }
                Ok(r)
            },
        }
    }

    /// Replaces a submission's code text.
    pub fn update_code(&mut self, id: i32, code: String) -> (r: Result<Submission, DomainError>)
        requires
            old(self).wf(),
        ensures
            final(self).wf(),
            final(self).next_id == old(self).next_id,
            match r {
                Ok(u) => {
                    &&& spec_find(old(self).submissions@, by_submission_id(id)) matches Some(w) && u
                        == (Submission { code: u.code, ..w })
                    &&& u.code == code
                    &&& exists|k: int|
                        0 <= k < old(self).submissions@.len() && old(self).submissions@[k]
                            == spec_find(old(self).submissions@, by_submission_id(id))->0 && final(self).submissions@ == old(self).submissions@.update(k, u)
                },
                Err(e) => {
                    &&& e == DomainError::NotFound
                    &&& spec_find(old(self).submissions@, by_submission_id(id)) is None
                    &&& *final(self) == *old(self)
                },
            },
    {
        match self.index_of(id) {
            None => Err(DomainError::NotFound),
            Some(k) => {
                let ghost prev = self.submissions@;
                let mut u = self.submissions[k].clone();
                u.code = code;
                let r = u.clone();
                self.submissions.set(k, u);
                proof {
                    let s1 = self.submissions@;
                    assert forall|i: int, j: int|
                        0 <= i < j < s1.len() implies s1[i].id < s1[j].id by {
                        assert(prev[i].id < prev[j].id);
                    }
                    assert forall|i: int| 0 <= i < s1.len() implies (#[trigger] s1[i]).id
                        < self.next_id by {
                        assert(prev[i].id < self.next_id);
                    }
                }
                Ok(r)
            },
        }
    }

    /// Lists submissions passing every given filter field, in ascending
    /// id order, windowed by offset and count. Absent offset and count
    /// default to everything.
    #[verifier::loop_isolation(false)]
    pub fn list(&self, params: &ListParams) -> (v: Vec<Submission>)
        ensures
            ({
                let filtered = spec_submissions_listed(self.submissions@, *params);
                let offset = match params.offset {
                    Some(o) => o as int,
                    None => 0int,
                };
                let count = match params.count {
                    Some(c) => c as int,
                    None => filtered.len() as int,
                };
                v@ == spec_window(filtered, offset, count)
            }),
    {
        let mut all: Vec<Submission> = Vec::new();
        let n = self.submissions.len();
        assert(self.submissions@.skip(0) =~= self.submissions@);
        for k in 0..n
            invariant
                spec_submissions_listed(self.submissions@, *params) =~= all@
                    + spec_submissions_listed(self.submissions@.skip(k as int), *params),
        {
            let s = &self.submissions[k];
            let keep = (match params.problem {
                Some(p) => s.problem_id == p,
                None => true,
            }) && (match params.user {
                Some(u) => s.user_id == u,
                None => true,
            }) && (match params.status {
                Some(st) => s.status == st,
                None => true,
            }) && (match params.language {
                Some(l) => s.language == l,
                None => true,
            });
            proof {
                assert(self.submissions@.skip(k as int)[0] == self.submissions@[k as int]);
                assert(self.submissions@.skip(k as int).drop_first() =~= self.submissions@.skip(
                    k as int + 1,
                ));
            }
            if keep {
                all.push(self.submissions[k].clone());
                proof {
                    assert(spec_submissions_listed(self.submissions@, *params) =~= all@
                        + spec_submissions_listed(self.submissions@.skip(k as int + 1), *params));
                }
            }
        }
        proof {
            assert(self.submissions@.skip(n as int) =~= Seq::<Submission>::empty());
            assert(all@ =~= spec_submissions_listed(self.submissions@, *params));
        }
        let total = all.len();
        let offset = match params.offset {
            Some(o) => o,
            None => 0,
        };
        let start = if offset > total {
            total
        } else {
            offset
        };
        let end = match params.count {
            Some(c) => if c > total - start {
                total
            } else {
                start + c
            },
            None => total,
        };
        let mut v: Vec<Submission> = Vec::new();
        for k in start..end
            invariant
                end <= total,
                total == all@.len(),
                start <= k <= end,
                v@ =~= all@.subrange(start as int, k as int),
        {
            v.push(all[k].clone());
        }
        proof {
            let filtered = all@;
            let goal_offset = match params.offset {
                Some(o) => o as int,
                None => 0int,
            };
            let goal_count = match params.count {
                Some(c) => c as int,
                None => filtered.len() as int,
            };
            assert(v@ =~= spec_window(filtered, goal_offset, goal_count));
        }
        v
    }
}

} // verus!
