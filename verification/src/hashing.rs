//! Slow, salted password hashing, provided by the `argon2` crate.
//!
//! A stored credential is the PHC string produced by Argon2id with a random
//! salt. Whether a plaintext matches such a string is a pure function of the
//! two, named here as [`password_matches`]; nothing in this crate states what
//! that function is on given values.

use vstd::prelude::*;

verus! {

/// Whether verifying `plain` against the PHC hash string `hash` succeeds.
/// The outcome depends on the two strings alone.
pub uninterp spec fn password_matches(hash: Seq<char>, plain: Seq<char>) -> bool;

/// Relies on `Argon2::hash_password` (argon2, with the `password-hash`
/// and `getrandom` features): it hashes the password with a freshly drawn
/// random salt, and `PasswordVerifier::verify_password` accepts exactly the
/// password a PHC string was produced from. The salt is random, so two calls
/// on the same password may return different strings; each returned string
/// verifies against the password it hashed.
#[verifier::external_body]
pub(crate) fn hash_password(plain: &str) -> (r: Result<String, ()>)
    ensures
        match r {
            Ok(h) => password_matches(h@, plain@),
            Err(_) => true,
        },
{
    match <argon2::Argon2 as argon2::PasswordHasher<_>>::hash_password(
        &argon2::Argon2::default(),
        plain.as_bytes(),
    ) {
        Ok(h) => Ok(h.to_string()),
        Err(_) => Err(()),
    }
}

/// Relies on `PasswordVerifier::<str>::verify_password` (argon2): it
/// recomputes the hash from the password and the salt and parameters stored
/// in the PHC string and compares; the outcome is a function of the two
/// strings alone.
#[verifier::external_body]
pub(crate) fn verify_hash(hash: &str, plain: &str) -> (r: bool)
    ensures
        r == password_matches(hash@, plain@),
{
    <argon2::Argon2 as argon2::PasswordVerifier<str>>::verify_password(
        &argon2::Argon2::default(),
        plain.as_bytes(),
        hash,
    )
    .is_ok()
}

} // verus!
