//! The course roster: a minimal reference entity owned by a teacher.

use vstd::prelude::*;

use crate::error::DomainError;
use crate::seqtools::{lemma_find_hit, lemma_find_step, spec_find};

verus! {

/// One course row, owned by the teacher with id `owner_id`.
#[derive(Debug)]
pub struct Course {
    pub id: i32,
    pub name: String,
    pub owner_id: i32,
}

impl Clone for Course {
    fn clone(&self) -> (res: Self)
        ensures
            res == *self,
    {
        Course { id: self.id, name: self.name.clone(), owner_id: self.owner_id }
    }
}

/// Matches a course by exact name.
pub open spec fn by_course_name(name: Seq<char>) -> spec_fn(Course) -> bool {
    |c: Course| c.name@ == name
}

/// Matches a course by id.
pub open spec fn by_course_id(id: i32) -> spec_fn(Course) -> bool {
    |c: Course| c.id == id
}

/// The in-memory course roster.
#[derive(Debug)]
pub struct CourseStore {
    pub courses: Vec<Course>,
}

impl CourseStore {
    /// Unique names and ids.
    pub open spec fn wf(self) -> bool {
        forall|i: int, j: int|
            0 <= i < j < self.courses@.len() ==> (#[trigger] self.courses@[i]).name@ != (
            #[trigger] self.courses@[j]).name@ && self.courses@[i].id != self.courses@[j].id
    }

    /// An empty roster.
    pub fn new() -> (s: Self)
        ensures
            s.courses@.len() == 0,
            s.wf(),
    {
        CourseStore { courses: Vec::new() }
    }

    /// Finds a course by exact name.
    pub fn find_by_name(&self, name: &str) -> (r: Result<&Course, DomainError>)
        ensures
            match r {
                Ok(c) => spec_find(self.courses@, by_course_name(name@)) == Some(*c),
                Err(e) => {
                    &&& e == DomainError::NotFound
                    &&& spec_find(self.courses@, by_course_name(name@)) is None
                },
            },
    {
        let ghost p = by_course_name(name@);
        let owned = name.to_owned();
        let n = self.courses.len();
        assert(self.courses@.skip(0) =~= self.courses@);
        for k in 0..n
            invariant
                n == self.courses@.len(),
                owned@ == name@,
                p == by_course_name(name@),
                spec_find(self.courses@, p) == spec_find(self.courses@.skip(k as int), p),
        {
            if self.courses[k].name == owned {
                proof {
                    lemma_find_hit(self.courses@, p, k as int);
                }
                return Ok(&self.courses[k]);
            }
            proof {
                lemma_find_step(self.courses@, p, k as int);
            }
        }
        proof {
            assert(self.courses@.skip(n as int) =~= Seq::<Course>::empty());
        }
        Err(DomainError::NotFound)
    }

    /// Finds a course by id.
    pub fn find_by_id(&self, id: i32) -> (r: Result<&Course, DomainError>)
        ensures
            match r {
                Ok(c) => spec_find(self.courses@, by_course_id(id)) == Some(*c),
                Err(e) => {
                    &&& e == DomainError::NotFound
                    &&& spec_find(self.courses@, by_course_id(id)) is None
                },
            },
    {
        let ghost p = by_course_id(id);
        let n = self.courses.len();
        assert(self.courses@.skip(0) =~= self.courses@);
        for k in 0..n
            invariant
                n == self.courses@.len(),
                p == by_course_id(id),
                spec_find(self.courses@, p) == spec_find(self.courses@.skip(k as int), p),
        {
            if self.courses[k].id == id {
                proof {
                    lemma_find_hit(self.courses@, p, k as int);
                }
                return Ok(&self.courses[k]);
            }
            proof {
                lemma_find_step(self.courses@, p, k as int);
            }
        }
        proof {
            assert(self.courses@.skip(n as int) =~= Seq::<Course>::empty());
        }
        Err(DomainError::NotFound)
    }
}

} // verus!
