//! Identity and domain-integrity core of an online-judge backend.
//!
//! The crate models the judge's durable state (users, courses, problems with
//! their test-case archives, submissions) as in-memory stores and verifies the
//! rules that govern them: credential lifecycle, role-based authorization,
//! atomic problem creation, test-case archive validation, and the submission
//! state machine.

pub mod archive;
pub mod courses;
pub mod error;
pub mod hashing;
pub mod ident;
pub mod language;
pub mod problems;
pub mod role;
pub mod seqtools;
pub mod sheet;
pub mod status;
pub mod storage;
pub mod submissions;
pub mod users;
pub mod views;
