//! Problem descriptions: the free-form text a problem is stated with.
//! A description is created together with its problem, in the same
//! all-or-nothing step, and its identity never changes afterwards.

use vstd::prelude::*;

verus! {

/// What a new description supplies.
#[derive(Debug)]
pub struct AddParams {
    pub description: String,
    pub input: String,
    pub output: String,
    pub hint: String,
    pub sample_input: Vec<String>,
    pub sample_output: Vec<String>,
}

/// One stored description row.
#[derive(Debug)]
pub struct Description {
    pub id: i32,
    pub description: String,
    pub input: String,
    pub output: String,
    pub hint: String,
    pub sample_input: Vec<String>,
    pub sample_output: Vec<String>,
    pub created_at: i64,
    pub updated_at: i64,
}

/// Clones a vector of strings exactly.
pub(crate) fn clone_strings(v: &Vec<String>) -> (r: Vec<String>)
    ensures
        r@ == v@,
{
    let mut r: Vec<String> = Vec::new();
    let n = v.len();
    for k in 0..n
        invariant
            n == v@.len(),
            r@ =~= v@.subrange(0, k as int),
    {
        r.push(v[k].clone());
    }
    proof {
        assert(v@.subrange(0, n as int) =~= v@);
    }
    r
}

impl Clone for Description {
    fn clone(&self) -> (res: Self)
        ensures
            res.id == self.id,
            res.description == self.description,
            res.input == self.input,
            res.output == self.output,
            res.hint == self.hint,
            res.sample_input@ == self.sample_input@,
            res.sample_output@ == self.sample_output@,
            res.created_at == self.created_at,
            res.updated_at == self.updated_at,
    {
        Description {
            id: self.id,
            description: self.description.clone(),
            input: self.input.clone(),
            output: self.output.clone(),
            hint: self.hint.clone(),
            sample_input: clone_strings(&self.sample_input),
            sample_output: clone_strings(&self.sample_output),
            created_at: self.created_at,
            updated_at: self.updated_at,
        }
    }
}

} // verus!
