//! Random opaque identifiers, provided by the `uuid` crate.
//!
//! Fresh identifiers (user pids, API keys, one-shot tokens, archive
//! identifiers) are version-4 UUIDs rendered in the canonical hyphenated
//! form. Re-rendering an identifier string into that form is a pure function
//! of the string, named here as [`uuid_canon`].

use vstd::prelude::*;

verus! {

/// The canonical hyphenated rendering of `s`, if `s` parses as a UUID;
/// `None` otherwise. The outcome depends on `s` alone.
pub uninterp spec fn uuid_canon(s: Seq<char>) -> Option<Seq<char>>;

/// Relies on `Uuid::new_v4` and its `Display` rendering (uuid, with the
/// `v4` feature): the result is a random identifier written as 36 lowercase
/// hyphenated hexadecimal characters, which is already canonical, so parsing
/// and re-rendering it gives the same string. Two calls may (and almost
/// surely do) return different strings; nothing here states which.
#[verifier::external_body]
pub(crate) fn fresh_uuid() -> (r: String)
    ensures
        r@.len() == 36,
        uuid_canon(r@) == Some(r@),
{
    uuid::Uuid::new_v4().to_string()
}

/// Relies on `Uuid::parse_str` and the `Display` rendering (uuid): parsing
/// accepts the documented textual UUID forms and re-rendering yields the
/// canonical hyphenated form, a function of the input string alone.
#[verifier::external_body]
pub(crate) fn canonical_uuid(s: &str) -> (r: Option<String>)
    ensures
        match r {
            Some(c) => uuid_canon(s@) == Some(c@),
            None => uuid_canon(s@) is None,
        },
{
    match uuid::Uuid::parse_str(s) {
        Ok(u) => Some(u.to_string()),
        Err(_) => None,
    }
}

} // verus!
