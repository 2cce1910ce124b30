//! The submission status state machine and its integer encoding.

use vstd::prelude::*;

verus! {

/// Status of a submission. `Pending` is the only initial state; every other
/// state is reached solely through the external grader reporting a result,
/// and no transition leads back to `Pending`.
///
/// Encoding: `Pending = -1`, `Accepted = 0`, `WrongAnswer = 1`,
/// `CompileError = 2`, `TimeLimitExceeded = 3`, `MemoryLimitExceeded = 4`,
/// `RuntimeError = 5`, `JudgeError = 6`, `OutputLimitExceeded = 7`.
#[derive(Clone, Copy, Debug, PartialEq, Eq, Structural)]
pub enum SubmissionStatus {
    Pending,
    Accepted,
    WrongAnswer,
    CompileError,
    TimeLimitExceeded,
    MemoryLimitExceeded,
    RuntimeError,
    JudgeError,
    OutputLimitExceeded,
}

pub open spec fn spec_status_to_int(s: SubmissionStatus) -> i32 {
    match s {
        SubmissionStatus::Pending => -1i32,
        SubmissionStatus::Accepted => 0,
        SubmissionStatus::WrongAnswer => 1,
        SubmissionStatus::CompileError => 2,
        SubmissionStatus::TimeLimitExceeded => 3,
        SubmissionStatus::MemoryLimitExceeded => 4,
        SubmissionStatus::RuntimeError => 5,
        SubmissionStatus::JudgeError => 6,
        SubmissionStatus::OutputLimitExceeded => 7,
    }
}

pub open spec fn spec_int_to_status(i: i32) -> Option<SubmissionStatus> {
    if i == -1 {
        Some(SubmissionStatus::Pending)
    } else if i == 0 {
        Some(SubmissionStatus::Accepted)
    } else if i == 1 {
        Some(SubmissionStatus::WrongAnswer)
    } else if i == 2 {
        Some(SubmissionStatus::CompileError)
    } else if i == 3 {
        Some(SubmissionStatus::TimeLimitExceeded)
    } else if i == 4 {
        Some(SubmissionStatus::MemoryLimitExceeded)
    } else if i == 5 {
        Some(SubmissionStatus::RuntimeError)
    } else if i == 6 {
        Some(SubmissionStatus::JudgeError)
    } else if i == 7 {
        Some(SubmissionStatus::OutputLimitExceeded)
    } else {
        None
    }
}

impl SubmissionStatus {
    /// Encodes the status as its canonical integer.
    pub fn to_int(&self) -> (i: i32)
        ensures
            i == spec_status_to_int(*self),
    {
        match self {
            SubmissionStatus::Pending => -1,
            SubmissionStatus::Accepted => 0,
            SubmissionStatus::WrongAnswer => 1,
            SubmissionStatus::CompileError => 2,
            SubmissionStatus::TimeLimitExceeded => 3,
            SubmissionStatus::MemoryLimitExceeded => 4,
            SubmissionStatus::RuntimeError => 5,
            SubmissionStatus::JudgeError => 6,
            SubmissionStatus::OutputLimitExceeded => 7,
        }
    }

    /// Decodes an integer; values outside the closed set are rejected.
    pub fn from_int(i: i32) -> (r: Option<SubmissionStatus>)
        ensures
            r == spec_int_to_status(i),
    {
        match i {
            -1 => Some(SubmissionStatus::Pending),
            0 => Some(SubmissionStatus::Accepted),
            1 => Some(SubmissionStatus::WrongAnswer),
            2 => Some(SubmissionStatus::CompileError),
            3 => Some(SubmissionStatus::TimeLimitExceeded),
            4 => Some(SubmissionStatus::MemoryLimitExceeded),
            5 => Some(SubmissionStatus::RuntimeError),
            6 => Some(SubmissionStatus::JudgeError),
            7 => Some(SubmissionStatus::OutputLimitExceeded),
            _ => None,
        }
    }
}

/// The two encodings invert each other.
pub proof fn lemma_status_encoding_round_trip(s: SubmissionStatus, i: i32)
    ensures
        spec_int_to_status(spec_status_to_int(s)) == Some(s),
        spec_int_to_status(i) is Some ==> spec_status_to_int(spec_int_to_status(i)->0) == i,
{
}

} // verus!
