//! The error taxonomy shared by every domain service.

use vstd::prelude::*;

verus! {

/// A field-level complaint raised while validating a registration.
#[derive(Clone, Copy, Debug, PartialEq, Eq, Structural)]
pub enum ValidationIssue {
    /// The username has fewer than two characters.
    NameTooShort,
    /// The email is not of the shape `local@domain` with both sides
    /// non-empty and exactly one `@`.
    EmailInvalid,
    /// A batch-signup row carries a role integer outside the canonical
    /// encoding.
    RoleUnknown,
    /// A batch-signup sheet does not fit the fixed tabular grammar.
    SheetMalformed,
}

/// A structural defect found in an uploaded test-case archive.
#[derive(Debug, PartialEq, Eq)]
pub enum ArchiveIssue {
    /// The bytes could not be read as a zip archive, or one of its entries
    /// could not be read.
    Unreadable,
    /// The named entry is a symbolic link, which is never allowed.
    Symlink(String),
    /// The named entry's stored path escapes the archive or is not valid
    /// text.
    UnsafePath(String),
    /// The named entry is not an expected test-case file, or repeats one
    /// that was already seen.
    ExtraOrDuplicate(String),
    /// All entries were consumed but these expected files never appeared,
    /// listed in task order, then case order, `STDIN` before `STDOUT`.
    Missing(Vec<CaseFileId>),
    /// The task list would need three-digit indices, which the two-digit
    /// file naming scheme cannot express.
    IndexOverflow,
}

/// Identifies one expected file of a test-case archive: the zero-based task
/// index, the zero-based case index within it, and whether it is the
/// `STDIN` (true) or `STDOUT` (false) half of the pair.
#[derive(Clone, Copy, Debug, PartialEq, Eq, Structural)]
pub struct CaseFileId {
    pub task: usize,
    pub case: usize,
    pub stdin: bool,
}

/// The error taxonomy of the domain services.
#[derive(Debug, PartialEq, Eq)]
pub enum DomainError {
    /// A lookup missed.
    NotFound,
    /// A uniqueness rule was violated; which field collided is deliberately
    /// not disclosed.
    AlreadyExists,
    /// Field validation failed; every failing field is listed.
    Validation(Vec<ValidationIssue>),
    /// The acting user's role does not permit the operation.
    PermissionDenied,
    /// An uploaded test-case archive is structurally invalid.
    BadFormat(ArchiveIssue),
    /// A storage-level failure with no domain meaning.
    Internal,
}

} // verus!
