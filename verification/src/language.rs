//! The closed set of submission languages and its integer encoding.

use vstd::prelude::*;

verus! {

/// Languages a submission may declare: `C = 0`, `Cpp = 1`, `Python = 2`.
#[derive(Clone, Copy, Debug, PartialEq, Eq, Structural)]
pub enum Language {
    C,
    Cpp,
    Python,
}

pub open spec fn spec_language_to_int(l: Language) -> i32 {
    match l {
        Language::C => 0,
        Language::Cpp => 1,
        Language::Python => 2,
    }
}

pub open spec fn spec_int_to_language(i: i32) -> Option<Language> {
    if i == 0 {
        Some(Language::C)
    } else if i == 1 {
        Some(Language::Cpp)
    } else if i == 2 {
        Some(Language::Python)
    } else {
        None
    }
}

impl Language {
    /// Encodes the language as its canonical integer.
    pub fn to_int(&self) -> (i: i32)
        ensures
            i == spec_language_to_int(*self),
    {
        match self {
            Language::C => 0,
            Language::Cpp => 1,
            Language::Python => 2,
        }
    }

    /// Decodes an integer; values outside the closed set are rejected.
    pub fn from_int(i: i32) -> (r: Option<Language>)
        ensures
            r == spec_int_to_language(i),
    {
        match i {
            0 => Some(Language::C),
            1 => Some(Language::Cpp),
            2 => Some(Language::Python),
            _ => None,
        }
    }
}

/// The two encodings invert each other.
pub proof fn lemma_language_encoding_round_trip(l: Language, i: i32)
    ensures
        spec_int_to_language(spec_language_to_int(l)) == Some(l),
        spec_int_to_language(i) is Some ==> spec_language_to_int(spec_int_to_language(i)->0) == i,
{
}

} // verus!
