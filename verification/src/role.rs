//! User roles and their single canonical integer encoding.
//!
//! The encoding used everywhere (payloads, storage, views) is
//! `Admin = 0`, `Teacher = 1`, `Student = 2`.

use vstd::prelude::*;

verus! {

/// The three roles a user can hold.
#[derive(Clone, Copy, Debug, PartialEq, Eq, Structural)]
pub enum Role {
    Admin,
    Teacher,
    Student,
}

/// Decodes an integer into a role: `0 = Admin`, `1 = Teacher`, `2 = Student`;
/// every other value is unrecognized.
pub fn int_to_role(i: i32) -> (r: Option<Role>)
    ensures
        r == spec_int_to_role(i),
{
    match i {
        0 => Some(Role::Admin),
        1 => Some(Role::Teacher),
        2 => Some(Role::Student),
        _ => None,
    }
}

/// Encodes a role as its canonical integer.
pub fn role_to_int(r: &Role) -> (i: i32)
    ensures
        i == spec_role_to_int(*r),
{
    match r {
        Role::Admin => 0,
        Role::Teacher => 1,
        Role::Student => 2,
    }
}

pub open spec fn spec_int_to_role(i: i32) -> Option<Role> {
    if i == 0 {
        Some(Role::Admin)
    } else if i == 1 {
        Some(Role::Teacher)
    } else if i == 2 {
        Some(Role::Student)
    } else {
        None
    }
}

pub open spec fn spec_role_to_int(r: Role) -> i32 {
    match r {
        Role::Admin => 0,
        Role::Teacher => 1,
        Role::Student => 2,
    }
}

/// The two encodings invert each other: decoding an encoded role gives the
/// role back, and every integer that decodes re-encodes to itself.
pub proof fn lemma_role_encoding_round_trip(r: Role, i: i32)
    ensures
        spec_int_to_role(spec_role_to_int(r)) == Some(r),
        spec_int_to_role(i) is Some ==> spec_role_to_int(spec_int_to_role(i)->0) == i,
{
}

/// Whether the role may author problems: only teachers and admins.
pub open spec fn spec_is_staff(r: Role) -> bool {
    r == Role::Teacher || r == Role::Admin
}

/// Returns whether a user of this role is allowed to create and manage
/// problems.
pub fn is_staff(r: &Role) -> (b: bool)
    ensures
        b == spec_is_staff(*r),
{
    match r {
        Role::Teacher => true,
        Role::Admin => true,
        Role::Student => false,
    }
}

} // verus!

verus! {

/// Gate for mutating operations: the acting role must be one of the
/// allowed roles, else the operation is refused with `PermissionDenied`.
/// A pure predicate with no side effects.
pub fn require_role(role: &Role, allowed: &Vec<Role>) -> (r: Result<
    (),
    crate::error::DomainError,
>)
    ensures
        r is Ok <==> allowed@.contains(*role),
        r is Err ==> r == Err::<(), crate::error::DomainError>(
            crate::error::DomainError::PermissionDenied,
        ),
{
    let n = allowed.len();
    for k in 0..n
        invariant
            n == allowed@.len(),
            forall|j: int| 0 <= j < k ==> allowed@[j] != *role,
    {
        if allowed[k] == *role {
            return Ok(());
        }
    }
    Err(crate::error::DomainError::PermissionDenied)
}

} // verus!
