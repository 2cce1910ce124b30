//! The artifact store and the two-phase promotion of a validated
//! test-case archive.
//!
//! Archive bytes live in a content store under the path
//! `test-case/{archive-id}.zip`. Promotion is deliberately two-phase: the
//! blob is written first and the problem's reference is flipped only
//! afterwards, so an interruption can orphan a blob but never leave a
//! reference to missing or unvalidated bytes. Previous archives are not
//! deleted.

use vstd::prelude::*;

use crate::archive;
use crate::error::DomainError;
use crate::ident;
use crate::problems::{by_problem_id, spec_tasks_of, Problem, ProblemStore};
use crate::seqtools::{
    lemma_find_first_match, lemma_find_hit, lemma_find_push, lemma_find_step,
    lemma_find_update_nomatch, spec_find,
};
use crate::users::User;

verus! {

/// One stored blob.
#[derive(Debug)]
pub struct Artifact {
    pub key: String,
    pub data: Vec<u8>,
}

/// Matches a blob by exact key.
pub open spec fn by_blob_key(key: Seq<char>) -> spec_fn(Artifact) -> bool {
    |a: Artifact| a.key@ == key
}

/// The in-memory artifact store.
#[derive(Debug)]
pub struct ArtifactStore {
    pub blobs: Vec<Artifact>,
}

impl ArtifactStore {
    /// Keys never collide.
    pub open spec fn wf(self) -> bool {
        forall|i: int, j: int|
            0 <= i < j < self.blobs@.len() ==> (#[trigger] self.blobs@[i]).key@ != (
            #[trigger] self.blobs@[j]).key@
    }

    /// An empty store.
    pub fn new() -> (s: Self)
        ensures
            s.blobs@.len() == 0,
            s.wf(),
    {
        ArtifactStore { blobs: Vec::new() }
    }

    /// Stores `data` under `key`, replacing whatever the key held: the
    /// last writer wins.
    #[verifier::loop_isolation(false)]
    pub fn put(&mut self, key: String, data: Vec<u8>)
        requires
            old(self).wf(),
        ensures
            final(self).wf(),
            spec_find(final(self).blobs@, by_blob_key(key@)) matches Some(a) && a.key@ == key@
                && a.data@ == data@,
            forall|k2: Seq<char>|
                k2 != key@ ==> spec_find(final(self).blobs@, by_blob_key(k2)) == spec_find(
                    old(self).blobs@,
                    #[trigger] by_blob_key(k2),
                ),
    {
        let ghost p = by_blob_key(key@);
        let n = self.blobs.len();
        let a = Artifact { key, data };
        for k in 0..n
            invariant
                n == self.blobs@.len(),
                *self == *old(self),
                p == by_blob_key(a.key@),
                forall|j: int| 0 <= j < k ==> !p(#[trigger] self.blobs@[j]),
        {
            if self.blobs[k].key == a.key {
                let ghost prev = self.blobs@;
                self.blobs.set(k, a);
                proof {
                    lemma_find_first_match(self.blobs@, p, k as int);
                    assert forall|i: int, j: int|
                        0 <= i < j < self.blobs@.len() implies (#[trigger] self.blobs@[i]).key@
                        != (#[trigger] self.blobs@[j]).key@ by {
                        assert(prev[i].key@ != prev[j].key@);
                        assert(prev[k as int].key@ == self.blobs@[k as int].key@);
                    }
                    assert forall|k2: Seq<char>|
                        k2 != self.blobs@[k as int].key@ implies spec_find(
                        self.blobs@,
                        by_blob_key(k2),
                    ) == spec_find(prev, #[trigger] by_blob_key(k2)) by {
                        lemma_find_update_nomatch(
                            prev,
                            by_blob_key(k2),
                            k as int,
                            self.blobs@[k as int],
                        );
                        assert(prev.update(k as int, self.blobs@[k as int]) =~= self.blobs@);
                    }
                }
                return ;
            }
        }
        proof {
            lemma_find_none_from_prefix(self.blobs@, p);
        }
        let ghost prev = self.blobs@;
        self.blobs.push(a);
        proof {
            lemma_find_push(prev, p, self.blobs@.last());
            assert forall|i: int, j: int|
                0 <= i < j < self.blobs@.len() implies (#[trigger] self.blobs@[i]).key@ != (
            #[trigger] self.blobs@[j]).key@ by {
                if j < self.blobs@.len() - 1 {
                    assert(prev[i].key@ != prev[j].key@);
                } else {
                    assert(!p(prev[i]));
                }
            }
            assert forall|k2: Seq<char>|
                k2 != self.blobs@.last().key@ implies spec_find(self.blobs@, by_blob_key(k2))
                == spec_find(prev, #[trigger] by_blob_key(k2)) by {
                lemma_find_push(prev, by_blob_key(k2), self.blobs@.last());
            }
        }
    }

    /// Reads the blob stored under `key`.
    pub fn get(&self, key: &str) -> (r: Option<&Vec<u8>>)
        ensures
            match r {
                Some(d) => spec_find(self.blobs@, by_blob_key(key@)) matches Some(a) && a.data
                    == *d,
                None => spec_find(self.blobs@, by_blob_key(key@)) is None,
            },
    {
        let ghost p = by_blob_key(key@);
        let owned = key.to_owned();
        let n = self.blobs.len();
        assert(self.blobs@.skip(0) =~= self.blobs@);
        for k in 0..n
            invariant
                n == self.blobs@.len(),
                owned@ == key@,
                p == by_blob_key(key@),
                spec_find(self.blobs@, p) == spec_find(self.blobs@.skip(k as int), p),
        {
            if self.blobs[k].key == owned {
                proof {
                    lemma_find_hit(self.blobs@, p, k as int);
                }
                return Some(&self.blobs[k].data);
            }
            proof {
                lemma_find_step(self.blobs@, p, k as int);
            }
        }
        proof {
            assert(self.blobs@.skip(n as int) =~= Seq::<Artifact>::empty());
        }
        None
    }
}

/// No match anywhere means the search fails; companion to the prefix
/// invariant of the scan loops.
proof fn lemma_find_none_from_prefix<A>(s: Seq<A>, p: spec_fn(A) -> bool)
    requires
        forall|j: int| 0 <= j < s.len() ==> !p(#[trigger] s[j]),
    ensures
        spec_find(s, p) is None,
    decreases s.len(),
{
    if s.len() != 0 {
        assert forall|j: int| 0 <= j < s.drop_first().len() implies !p(
            #[trigger] s.drop_first()[j],
        ) by {
            assert(s.drop_first()[j] == s[j + 1]);
        }
        lemma_find_none_from_prefix(s.drop_first(), p);
    }
}

/// The storage path of an archive id: `test-case/{id}.zip`.
pub open spec fn spec_test_case_path(id: Seq<char>) -> Seq<char> {
    "test-case/"@ + id + ".zip"@
}

/// Builds [`spec_test_case_path`].
pub fn test_case_path(id: &str) -> (r: String)
    ensures
        r@ == spec_test_case_path(id@),
{
    let mut s = "test-case/".to_owned();
    s.append(id);
    s.append(".zip");
    s
}

/// Clones a byte vector exactly.
fn clone_bytes(v: &Vec<u8>) -> (r: Vec<u8>)
    ensures
        r@ == v@,
{
    let mut r: Vec<u8> = Vec::new();
    let n = v.len();
    for k in 0..n
        invariant
            n == v@.len(),
            r@ =~= v@.subrange(0, k as int),
    {
        r.push(v[k]);
    }
    proof {
        assert(v@.subrange(0, n as int) =~= v@);
    }
    r
}

/// Validates and promotes an uploaded test-case archive.
///
/// Only the problem's owner may upload. The bytes are validated against
/// the problem's current tasks; on success a fresh random archive id is
/// minted, the bytes are written to the artifact store under
/// `test-case/{id}.zip`, and only then is the problem's stored reference
/// flipped to the new id. On any error neither store changes.
pub fn upload_test_case(
    problems: &mut ProblemStore,
    artifacts: &mut ArtifactStore,
    actor: &User,
    problem_id: i32,
    bytes: &Vec<u8>,
    now: i64,
) -> (r: Result<Problem, DomainError>)
    requires
        old(problems).wf(),
        old(artifacts).wf(),
    ensures
        final(problems).wf(),
        final(artifacts).wf(),
        r is Err ==> *final(problems) == *old(problems) && *final(artifacts) == *old(artifacts),
        match r {
            Ok(p2) => {
                &&& spec_find(old(problems).problems@, by_problem_id(problem_id)) matches Some(w)
                    && {
                    &&& w.owner_id == actor.id
                    &&& archive::spec_archive_ok(
                        spec_tasks_of(old(problems).tasks@, problem_id),
                        bytes@,
                    )
                    &&& p2 == (Problem { test_case_id: p2.test_case_id, ..w })
                    &&& p2.test_case_id matches Some(tid) && {
                        &&& spec_find(
                            final(artifacts).blobs@,
                            by_blob_key(spec_test_case_path(tid@)),
                        ) matches Some(a) && a.data@ == bytes@
                        &&& forall|k2: Seq<char>|
                            k2 != spec_test_case_path(tid@) ==> spec_find(
                                final(artifacts).blobs@,
                                by_blob_key(k2),
                            ) == spec_find(old(artifacts).blobs@, #[trigger] by_blob_key(k2))
                    }
                    &&& exists|k: int|
                        0 <= k < old(problems).problems@.len() && old(problems).problems@[k] == w
                            && final(problems).problems@ == old(problems).problems@.update(k, p2)
                    &&& final(problems).descriptions@ == old(problems).descriptions@
                    &&& final(problems).tasks@ == old(problems).tasks@
                }
            },
            Err(e) => match e {
                    DomainError::NotFound => spec_find(
                        old(problems).problems@,
                        by_problem_id(problem_id),
                    ) is None,
                    DomainError::PermissionDenied => spec_find(
                        old(problems).problems@,
                        by_problem_id(problem_id),
                    ) matches Some(w) && w.owner_id != actor.id,
                    DomainError::BadFormat(_) => {
                        &&& spec_find(old(problems).problems@, by_problem_id(problem_id))
                            matches Some(w) && w.owner_id == actor.id
                        &&& !archive::spec_archive_ok(
                            spec_tasks_of(old(problems).tasks@, problem_id),
                            bytes@,
                        )
                    },
                    _ => false,
                },
            },
{
    let owner_id = match problems.find_by_id(problem_id) {
        Ok(p) => p.owner_id,
        Err(_) => {
            return Err(DomainError::NotFound);
        },
    };
    if owner_id != actor.id {
        return Err(DomainError::PermissionDenied);
    }
    let tasks = problems.tasks(problem_id);
    match archive::validate_test_case(&tasks, bytes) {
        Ok(_) => {},
        Err(issue) => {
            return Err(DomainError::BadFormat(issue));
        },
    }
    let id = ident::fresh_uuid();
    let path = test_case_path(id.as_str());
    artifacts.put(path, clone_bytes(bytes));
    match problems.update_test_case_id(problem_id, Some(id)) {
        Ok(p2) => Ok(p2),
        Err(_) => {
            proof {
                assert(false);
            }
            Err(DomainError::Internal)
        },
    }
}

} // verus!
