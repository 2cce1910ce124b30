//! Problem tasks: the per-task grading parameters. Task order is
//! significant: the zero-based position of a task among its problem's
//! tasks drives the expected test-case file names.

use vstd::prelude::*;

verus! {

/// What one new task supplies.
#[derive(Clone, Copy, Debug, PartialEq, Eq, Structural)]
pub struct AddParams {
    pub test_case_count: i32,
    pub score: i32,
    pub time_limit: i32,
    pub memory_limit: i32,
}

/// One stored task row.
#[derive(Clone, Copy, Debug, PartialEq, Eq, Structural)]
pub struct ProblemTask {
    pub id: i32,
    pub problem_id: i32,
    pub test_case_count: i32,
    pub score: i32,
    pub time_limit: i32,
    pub memory_limit: i32,
}

} // verus!
