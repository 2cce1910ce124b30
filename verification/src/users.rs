//! The credential store and user roster.
//!
//! Users live in an in-memory [`UserStore`] that upholds the uniqueness
//! rules the persistent schema would enforce: usernames, emails, pids and
//! API keys never collide, and every row id is unique. All mutating
//! operations either succeed or leave the store exactly as it was.

use vstd::prelude::*;

use crate::error::{DomainError, ValidationIssue};
use crate::hashing;
use crate::hashing::password_matches;
use crate::ident;
use crate::ident::uuid_canon;
use crate::role::Role;
use crate::seqtools::{
    lemma_find_hit, lemma_find_none, lemma_find_some, lemma_find_step, spec_find,
};

verus! {

/// One user row. `password` holds the PHC hash string, never a plaintext.
#[derive(Debug)]
pub struct User {
    pub id: i32,
    /// Stable external identifier (canonical hyphenated UUID); session
    /// tokens carry it as their claims key.
    pub pid: String,
    pub email: String,
    pub password: String,
    pub api_key: String,
    pub name: String,
    pub reset_token: Option<String>,
    pub reset_sent_at: Option<i64>,
    pub email_verification_token: Option<String>,
    pub email_verification_sent_at: Option<i64>,
    pub email_verified_at: Option<i64>,
    pub role: Role,
    pub displayed_name: Option<String>,
    pub bio: Option<String>,
    pub created_at: i64,
    pub updated_at: i64,
}

/// Clones an optional string exactly.
fn clone_opt_string(s: &Option<String>) -> (r: Option<String>)
    ensures
        r == *s,
{
    match s {
        Some(x) => Some(x.clone()),
        None => None,
    }
}

impl Clone for User {
    fn clone(&self) -> (res: Self)
        ensures
            res == *self,
    {
        User {
            id: self.id,
            pid: self.pid.clone(),
            email: self.email.clone(),
            password: self.password.clone(),
            api_key: self.api_key.clone(),
            name: self.name.clone(),
            reset_token: clone_opt_string(&self.reset_token),
            reset_sent_at: self.reset_sent_at,
            email_verification_token: clone_opt_string(&self.email_verification_token),
            email_verification_sent_at: self.email_verification_sent_at,
            email_verified_at: self.email_verified_at,
            role: self.role,
            displayed_name: clone_opt_string(&self.displayed_name),
            bio: clone_opt_string(&self.bio),
            created_at: self.created_at,
            updated_at: self.updated_at,
        }
    }
}

/// What a new registration supplies.
#[derive(Debug)]
pub struct RegisterParams {
    pub email: String,
    pub password: String,
    pub username: String,
}

/// Two distinct users may never share any of these identity fields.
pub open spec fn spec_identity_clash(a: User, b: User) -> bool {
    ||| a.name@ == b.name@
    ||| a.email@ == b.email@
    ||| a.pid@ == b.pid@
    ||| a.api_key@ == b.api_key@
    ||| a.id == b.id
}

/// Matches a user whose identity would collide with the given fields.
pub open spec fn by_conflict(
    name: Seq<char>,
    email: Seq<char>,
    pid: Seq<char>,
    api_key: Seq<char>,
) -> spec_fn(User) -> bool {
    |u: User| u.name@ == name || u.email@ == email || u.pid@ == pid || u.api_key@ == api_key
}

/// Matches a user by exact username.
pub open spec fn by_name(name: Seq<char>) -> spec_fn(User) -> bool {
    |u: User| u.name@ == name
}

/// Matches a user by exact email.
pub open spec fn by_email(email: Seq<char>) -> spec_fn(User) -> bool {
    |u: User| u.email@ == email
}

/// Matches a user by exact pid.
pub open spec fn by_pid(pid: Seq<char>) -> spec_fn(User) -> bool {
    |u: User| u.pid@ == pid
}

/// Matches a user by exact API key.
pub open spec fn by_api_key(key: Seq<char>) -> spec_fn(User) -> bool {
    |u: User| u.api_key@ == key
}

/// Matches a user holding this email-verification token.
pub open spec fn by_verification_token(token: Seq<char>) -> spec_fn(User) -> bool {
    |u: User| u.email_verification_token matches Some(t) && t@ == token
}

/// Matches a user holding this password-reset token.
pub open spec fn by_reset_token(token: Seq<char>) -> spec_fn(User) -> bool {
    |u: User| u.reset_token matches Some(t) && t@ == token
}

/// The in-memory user roster.
#[derive(Debug)]
pub struct UserStore {
    pub users: Vec<User>,
    /// The id the next created user will take; behaves like the schema's
    /// auto-incrementing primary key.
    pub next_id: i32,
}

impl UserStore {
    /// Uniqueness of usernames, emails, pids, API keys and ids, and every
    /// id below the next one to be handed out.
    pub open spec fn wf(self) -> bool {
        &&& forall|i: int, j: int|
            0 <= i < j < self.users@.len() ==> !spec_identity_clash(
                #[trigger] self.users@[i],
                #[trigger] self.users@[j],
            )
        &&& forall|i: int| 0 <= i < self.users@.len() ==> (#[trigger] self.users@[i]).id < self.next_id
    }

    /// An empty roster.
    pub fn new() -> (s: Self)
        ensures
            s.users@.len() == 0,
            s.next_id == 1,
            s.wf(),
    {
        UserStore { users: Vec::new(), next_id: 1 }
    }

    /// Position of the first user matching the probe, tied to
    /// [`spec_find`]; shared by the finders and the in-place updates.
    fn index_of(&self, probe: &UserProbe) -> (r: Option<usize>)
        ensures
            match r {
                Some(k) => {
                    &&& k < self.users@.len()
                    &&& spec_find(self.users@, probe.pred()) == Some(self.users@[k as int])
                    &&& probe.pred()(self.users@[k as int])
                },
                None => spec_find(self.users@, probe.pred()) is None,
            },
    {
        let ghost p = probe.pred();
        let n = self.users.len();
        assert(self.users@.skip(0) =~= self.users@);
        for k in 0..n
            invariant
                n == self.users@.len(),
                p == probe.pred(),
                spec_find(self.users@, p) == spec_find(self.users@.skip(k as int), p),
        {
            if probe.matches(&self.users[k]) {
                proof {
                    lemma_find_hit(self.users@, p, k as int);
                }
                return Some(k);
            }
            proof {
                lemma_find_step(self.users@, p, k as int);
            }
        }
        proof {
            assert(self.users@.skip(n as int) =~= Seq::<User>::empty());
        }
        None
    }

    /// First user whose field matches `p`, as [`spec_find`] describes.
    /// Walks the roster; shared by the public finders.
    fn find_ref(&self, probe: &UserProbe) -> (r: Option<&User>)
        ensures
            match r {
                Some(u) => spec_find(self.users@, probe.pred()) == Some(*u),
                None => spec_find(self.users@, probe.pred()) is None,
            },
    {
        match self.index_of(probe) {
            Some(k) => Some(&self.users[k]),
            None => None,
        }
    }
}

impl User {
    /// Whether `password` is the plaintext this user's stored hash was
    /// produced from. The plaintext is never stored or logged.
    pub fn verify_password(&self, password: &str) -> (b: bool)
        ensures
            b == password_matches(self.password@, password@),
    {
        hashing::verify_hash(self.password.as_str(), password)
    }
}

/// A concrete lookup key; each variant corresponds to one finder.
pub enum UserProbe {
    Uid(i32),
    Name(String),
    Email(String),
    Pid(String),
    ApiKey(String),
    VerificationToken(String),
    ResetToken(String),
}

impl UserProbe {
    /// The predicate this probe stands for.
    pub open spec fn pred(&self) -> spec_fn(User) -> bool {
        match self {
            UserProbe::Uid(i) => by_uid(*i),
            UserProbe::Name(s) => by_name(s@),
            UserProbe::Email(s) => by_email(s@),
            UserProbe::Pid(s) => by_pid(s@),
            UserProbe::ApiKey(s) => by_api_key(s@),
            UserProbe::VerificationToken(s) => by_verification_token(s@),
            UserProbe::ResetToken(s) => by_reset_token(s@),
        }
    }

    /// Whether `u` is the user this probe looks for.
    fn matches(&self, u: &User) -> (b: bool)
        ensures
            b == self.pred()(*u),
    {
        match self {
            UserProbe::Uid(i) => u.id == *i,
            UserProbe::Name(s) => u.name == *s,
            UserProbe::Email(s) => u.email == *s,
            UserProbe::Pid(s) => u.pid == *s,
            UserProbe::ApiKey(s) => u.api_key == *s,
            UserProbe::VerificationToken(s) => match &u.email_verification_token {
                Some(t) => *t == *s,
                None => false,
            },
            UserProbe::ResetToken(s) => match &u.reset_token {
                Some(t) => *t == *s,
                None => false,
            },
        }
    }
}

} // verus!

verus! {

/// Splitting an email at position `i`: an `@` with a non-empty local part
/// before it, a non-empty domain after it, and no other `@` anywhere.
pub open spec fn spec_email_split(s: Seq<char>, i: int) -> bool {
    &&& 1 <= i <= s.len() - 2
    &&& s[i] == '@'
    &&& forall|j: int| 0 <= j < s.len() && j != i ==> s[j] != '@'
}

/// A well-formed email: exactly one `@`, with non-empty text on both sides.
pub open spec fn spec_valid_email(s: Seq<char>) -> bool {
    exists|i: int| spec_email_split(s, i)
}

/// The field-level complaints a registration with these fields raises, in
/// field order: username first, then email.
pub open spec fn spec_registration_issues(name: Seq<char>, email: Seq<char>) -> Seq<
    ValidationIssue,
> {
    (if name.len() < 2 {
        seq![ValidationIssue::NameTooShort]
    } else {
        Seq::empty()
    }) + (if !spec_valid_email(email) {
        seq![ValidationIssue::EmailInvalid]
    } else {
        Seq::empty()
    })
}

/// Decides [`spec_valid_email`].
pub fn is_valid_email(email: &str) -> (b: bool)
    ensures
        b == spec_valid_email(email@),
{
    let n = email.unicode_len();
    let mut at: Option<usize> = None;
    for k in 0..n
        invariant
            n == email@.len(),
            match at {
                None => forall|j: int| 0 <= j < k ==> email@[j] != '@',
                Some(a) => a < k && email@[a as int] == '@' && (forall|j: int|
                    0 <= j < k && j != a ==> email@[j] != '@'),
            },
    {
        let c = email.get_char(k);
        if c == '@' {
            match at {
                None => {
                    at = Some(k);
                },
                Some(a) => {
                    proof {
                        assert forall|i: int| !spec_email_split(email@, i) by {
                            if spec_email_split(email@, i) {
                                if i == a as int {
                                    assert(email@[k as int] != '@');
                                } else {
                                    assert(email@[a as int] != '@');
                                }
                            }
                        }
                    }
                    return false;
                },
            }
        }
    }
    match at {
        Some(a) => {
            if a >= 1 && a <= n - 2 {
                proof {
                    assert(spec_email_split(email@, a as int));
                }
                true
            } else {
                proof {
                    assert forall|i: int| !spec_email_split(email@, i) by {
                        if spec_email_split(email@, i) && i != a as int {
                            assert(email@[a as int] != '@');
                        }
                    }
                }
                false
            }
        },
        None => {
            proof {
                assert forall|i: int| !spec_email_split(email@, i) by {
                    if spec_email_split(email@, i) {
                        assert(email@[i] != '@');
                    }
                }
            }
            false
        },
    }
}

/// Collects every failing field of a registration, as
/// [`spec_registration_issues`] lists them.
pub fn registration_issues(username: &str, email: &str) -> (v: Vec<ValidationIssue>)
    ensures
        v@ == spec_registration_issues(username@, email@),
{
    let mut v: Vec<ValidationIssue> = Vec::new();
    if username.unicode_len() < 2 {
        v.push(ValidationIssue::NameTooShort);
    }
    if !is_valid_email(email) {
        v.push(ValidationIssue::EmailInvalid);
    }
    proof {
        assert(v@ =~= spec_registration_issues(username@, email@));
    }
    v
}

impl UserStore {
    /// Inserts a fully determined user row: every generated artifact (the
    /// password hash, pid and API key) is already fixed, so the outcome is a
    /// function of the store and the arguments.
    ///
    /// Field validation is checked first and reports every failing field;
    /// then any identity collision (username, email, pid or API key) is
    /// refused as `AlreadyExists` without disclosing which field collided;
    /// an exhausted id sequence is an internal fault. On any error the
    /// store is untouched.
    pub fn register_user(
        &mut self,
        username: &str,
        email: &str,
        password_hash: String,
        pid: String,
        api_key: String,
        now: i64,
    ) -> (r: Result<User, DomainError>)
        requires
            old(self).wf(),
        ensures
            final(self).wf(),
            match r {
                Ok(u) => {
                    &&& spec_registration_issues(username@, email@).len() == 0
                    &&& spec_find(
                        old(self).users@,
                        by_conflict(username@, email@, pid@, api_key@),
                    ) is None
                    &&& old(self).next_id < i32::MAX
                    &&& u.id == old(self).next_id
                    &&& u.pid == pid
                    &&& u.email@ == email@
                    &&& u.password == password_hash
                    &&& u.api_key == api_key
                    &&& u.name@ == username@
                    &&& u.reset_token is None
                    &&& u.reset_sent_at is None
                    &&& u.email_verification_token is None
                    &&& u.email_verification_sent_at is None
                    &&& u.email_verified_at is None
                    &&& u.role == Role::Student
                    &&& u.displayed_name is None
                    &&& u.bio is None
                    &&& u.created_at == now
                    &&& u.updated_at == now
                    &&& final(self).users@ == old(self).users@.push(u)
                    &&& final(self).next_id == old(self).next_id + 1
                },
                Err(e) => {
                    &&& *final(self) == *old(self)
                    &&& match e {
                        DomainError::Validation(v) => {
                            &&& v@ == spec_registration_issues(username@, email@)
                            &&& v@.len() > 0
                        },
                        DomainError::AlreadyExists => {
                            &&& spec_registration_issues(username@, email@).len() == 0
                            &&& spec_find(
                                old(self).users@,
                                by_conflict(username@, email@, pid@, api_key@),
                            ) is Some
                        },
                        DomainError::Internal => {
                            &&& spec_registration_issues(username@, email@).len() == 0
                            &&& spec_find(
                                old(self).users@,
                                by_conflict(username@, email@, pid@, api_key@),
                            ) is None
                            &&& old(self).next_id == i32::MAX
                        },
                        _ => false,
                    }
                },
            },
    {
        let issues = registration_issues(username, email);
        if issues.len() > 0 {
            return Err(DomainError::Validation(issues));
        }
        let ghost cp = by_conflict(username@, email@, pid@, api_key@);
        let uname = username.to_owned();
        let mail = email.to_owned();
        let n = self.users.len();
        assert(self.users@.skip(0) =~= self.users@);
        for k in 0..n
            invariant
                old(self).wf(),
                *self == *old(self),
                n == self.users@.len(),
                uname@ == username@,
                mail@ == email@,
                spec_registration_issues(username@, email@).len() == 0,
                cp == by_conflict(username@, email@, pid@, api_key@),
                spec_find(self.users@, cp) == spec_find(self.users@.skip(k as int), cp),
        {
            let u = &self.users[k];
            if u.name == uname || u.email == mail || u.pid == pid || u.api_key == api_key {
                proof {
                    lemma_find_hit(self.users@, cp, k as int);
                }
                return Err(DomainError::AlreadyExists);
            }
            proof {
                lemma_find_step(self.users@, cp, k as int);
            }
        }
        proof {
            assert(self.users@.skip(n as int) =~= Seq::<User>::empty());
            assert(spec_find(self.users@, cp) is None);
        }
        if self.next_id == i32::MAX {
            return Err(DomainError::Internal);
        }
        let u = User {
            id: self.next_id,
            pid,
            email: mail,
            password: password_hash,
            api_key,
            name: uname,
            reset_token: None,
            reset_sent_at: None,
            email_verification_token: None,
            email_verification_sent_at: None,
            email_verified_at: None,
            role: Role::Student,
            displayed_name: None,
            bio: None,
            created_at: now,
            updated_at: now,
        };
        proof {
            lemma_find_none(self.users@, cp);
        }
        let ghost prev = self.users@;
        let r = u.clone();
        self.users.push(u);
        self.next_id = self.next_id + 1;
        proof {
            let s1 = self.users@;
            assert forall|i: int, j: int|
                0 <= i < j < s1.len() implies !spec_identity_clash(s1[i], s1[j]) by {
                if j < s1.len() - 1 {
                    assert(!spec_identity_clash(prev[i], prev[j]));
                } else {
                    assert(s1[j] == r);
                    assert(!cp(prev[i]));
                    assert(prev[i].id < r.id);
                }
            }
        }
        Ok(r)
    }
}

} // verus!

verus! {

impl UserStore {
    /// Registers a new account: validates the fields, refuses a colliding
    /// username or email as `AlreadyExists` (without telling which), hashes
    /// the password with a random salt, mints the pid and API key, and
    /// inserts the row. On any error the store is untouched.
    pub fn create_with_password(&mut self, params: &RegisterParams, now: i64) -> (r: Result<
        User,
        DomainError,
    >)
        requires
            old(self).wf(),
        ensures
            final(self).wf(),
            r is Err ==> *final(self) == *old(self),
            match r {
                Ok(u) => {
                    &&& spec_registration_issues(params.username@, params.email@).len() == 0
                    &&& spec_find(old(self).users@, by_name(params.username@)) is None
                    &&& spec_find(old(self).users@, by_email(params.email@)) is None
                    &&& u.name@ == params.username@
                    &&& u.email@ == params.email@
                    &&& password_matches(u.password@, params.password@)
                    &&& u.role == Role::Student
                    &&& u.id == old(self).next_id
                    &&& u.reset_token is None
                    &&& u.reset_sent_at is None
                    &&& u.email_verification_token is None
                    &&& u.email_verification_sent_at is None
                    &&& u.email_verified_at is None
                    &&& u.displayed_name is None
                    &&& u.bio is None
                    &&& u.created_at == now
                    &&& u.updated_at == now
                    &&& uuid_canon(u.pid@) == Some(u.pid@)
                    &&& u.api_key@.len() == 45
                    &&& final(self).users@ == old(self).users@.push(u)
                    &&& final(self).next_id == old(self).next_id + 1
                },
                Err(e) => match e {
                    DomainError::Validation(v) => {
                        &&& v@ == spec_registration_issues(params.username@, params.email@)
                        &&& v@.len() > 0
                    },
                    DomainError::AlreadyExists => {
                        &&& spec_registration_issues(params.username@, params.email@).len() == 0
                        &&& (spec_find(old(self).users@, by_name(params.username@)) is Some
                            || spec_find(old(self).users@, by_email(params.email@)) is Some)
                    },
                    DomainError::Internal => {
                        &&& spec_registration_issues(params.username@, params.email@).len() == 0
                        &&& spec_find(old(self).users@, by_name(params.username@)) is None
                        &&& spec_find(old(self).users@, by_email(params.email@)) is None
                    },
                    _ => false,
                },
            },
            (spec_registration_issues(params.username@, params.email@).len() == 0 && (spec_find(
                old(self).users@,
                by_name(params.username@),
            ) is Some || spec_find(old(self).users@, by_email(params.email@)) is Some)) ==> r
                == Err::<User, DomainError>(DomainError::AlreadyExists),
    {
        let issues = registration_issues(params.username.as_str(), params.email.as_str());
        if issues.len() > 0 {
            return Err(DomainError::Validation(issues));
        }
        match self.find_ref(&UserProbe::Name(params.username.clone())) {
            Some(_) => {
                return Err(DomainError::AlreadyExists);
            },
            None => {},
        }
        match self.find_ref(&UserProbe::Email(params.email.clone())) {
            Some(_) => {
                return Err(DomainError::AlreadyExists);
            },
            None => {},
        }
        let hash = match hashing::hash_password(params.password.as_str()) {
            Ok(h) => h,
            Err(_) => {
                return Err(DomainError::Internal);
            },
        };
        let pid = ident::fresh_uuid();
        let mut api_key = "noral-oj-".to_owned();
        let suffix = ident::fresh_uuid();
        api_key.append(suffix.as_str());
        proof {
            reveal_strlit("noral-oj-");
            assert(api_key@.len() == 45);
        }
        match self.register_user(
            params.username.as_str(),
            params.email.as_str(),
            hash,
            pid,
            api_key,
            now,
        ) {
            Ok(u) => Ok(u),
            Err(err) => {
                // the username and email were just checked free, so a
                // collision here is on the freshly drawn pid or API key: a
                // storage-level fluke, not a caller-visible duplicate
                let remapped = match err {
                    DomainError::AlreadyExists => DomainError::Internal,
                    other => other,
                };
                Err(remapped)
            },
        }
    }

    /// Finds a user by exact username.
    pub fn find_by_username(&self, username: &str) -> (r: Result<&User, DomainError>)
        ensures
            match r {
                Ok(u) => spec_find(self.users@, by_name(username@)) == Some(*u),
                Err(e) => {
                    &&& e == DomainError::NotFound
                    &&& spec_find(self.users@, by_name(username@)) is None
                },
            },
    {
        match self.find_ref(&UserProbe::Name(username.to_owned())) {
            Some(u) => Ok(u),
            None => Err(DomainError::NotFound),
        }
    }

    /// Finds a user by exact email.
    pub fn find_by_email(&self, email: &str) -> (r: Result<&User, DomainError>)
        ensures
            match r {
                Ok(u) => spec_find(self.users@, by_email(email@)) == Some(*u),
                Err(e) => {
                    &&& e == DomainError::NotFound
                    &&& spec_find(self.users@, by_email(email@)) is None
                },
            },
    {
        match self.find_ref(&UserProbe::Email(email.to_owned())) {
            Some(u) => Ok(u),
            None => Err(DomainError::NotFound),
        }
    }

    /// Finds a user by API key.
    pub fn find_by_api_key(&self, api_key: &str) -> (r: Result<&User, DomainError>)
        ensures
            match r {
                Ok(u) => spec_find(self.users@, by_api_key(api_key@)) == Some(*u),
                Err(e) => {
                    &&& e == DomainError::NotFound
                    &&& spec_find(self.users@, by_api_key(api_key@)) is None
                },
            },
    {
        match self.find_ref(&UserProbe::ApiKey(api_key.to_owned())) {
            Some(u) => Ok(u),
            None => Err(DomainError::NotFound),
        }
    }

    /// Finds a user by its current email-verification token.
    pub fn find_by_verification_token(&self, token: &str) -> (r: Result<&User, DomainError>)
        ensures
            match r {
                Ok(u) => spec_find(self.users@, by_verification_token(token@)) == Some(*u),
                Err(e) => {
                    &&& e == DomainError::NotFound
                    &&& spec_find(self.users@, by_verification_token(token@)) is None
                },
            },
    {
        match self.find_ref(&UserProbe::VerificationToken(token.to_owned())) {
            Some(u) => Ok(u),
            None => Err(DomainError::NotFound),
        }
    }

    /// Finds a user by its current password-reset token.
    pub fn find_by_reset_token(&self, token: &str) -> (r: Result<&User, DomainError>)
        ensures
            match r {
                Ok(u) => spec_find(self.users@, by_reset_token(token@)) == Some(*u),
                Err(e) => {
                    &&& e == DomainError::NotFound
                    &&& spec_find(self.users@, by_reset_token(token@)) is None
                },
            },
    {
        match self.find_ref(&UserProbe::ResetToken(token.to_owned())) {
            Some(u) => Ok(u),
            None => Err(DomainError::NotFound),
        }
    }

    /// Finds a user by pid. The key is first brought to the canonical
    /// UUID rendering; a key that is no UUID at all misses.
    pub fn find_by_pid(&self, pid: &str) -> (r: Result<&User, DomainError>)
        ensures
            match r {
                Ok(u) => {
                    &&& uuid_canon(pid@) matches Some(c) && spec_find(self.users@, by_pid(c))
                        == Some(*u)
                },
                Err(e) => {
                    &&& e == DomainError::NotFound
                    &&& match uuid_canon(pid@) {
                        Some(c) => spec_find(self.users@, by_pid(c)) is None,
                        None => true,
                    }
                },
            },
    {
        match ident::canonical_uuid(pid) {
            Some(c) => match self.find_ref(&UserProbe::Pid(c)) {
                Some(u) => Ok(u),
                None => Err(DomainError::NotFound),
            },
            None => Err(DomainError::NotFound),
        }
    }

    /// Resolves the claims key of a session token back to its user. With a
    /// well-formed store, pids are unique, so at most one user matches.
    pub fn find_by_claims_key(&self, key: &str) -> (r: Result<&User, DomainError>)
        ensures
            match r {
                Ok(u) => {
                    &&& uuid_canon(key@) matches Some(c) && spec_find(self.users@, by_pid(c))
                        == Some(*u)
                },
                Err(e) => {
                    &&& e == DomainError::NotFound
                    &&& match uuid_canon(key@) {
                        Some(c) => spec_find(self.users@, by_pid(c)) is None,
                        None => true,
                    }
                },
            },
    {
        self.find_by_pid(key)
    }

    /// Whether a user with this username exists; a registration helper
    /// that deliberately reveals availability.
    pub fn is_username_taken(&self, username: &str) -> (b: bool)
        ensures
            b == (spec_find(self.users@, by_name(username@)) is Some),
    {
        match self.find_ref(&UserProbe::Name(username.to_owned())) {
            Some(_) => true,
            None => false,
        }
    }

    /// Whether a user with this email exists.
    pub fn is_email_taken(&self, email: &str) -> (b: bool)
        ensures
            b == (spec_find(self.users@, by_email(email@)) is Some),
    {
        match self.find_ref(&UserProbe::Email(email.to_owned())) {
            Some(_) => true,
            None => false,
        }
    }

    /// The login lookup: the identity is tried as an email first, then as
    /// a username.
    pub open spec fn spec_login_lookup(self, identity: Seq<char>) -> Option<User> {
        match spec_find(self.users@, by_email(identity)) {
            Some(u) => Some(u),
            None => spec_find(self.users@, by_name(identity)),
        }
    }

    /// Checks a login. A missing account and a wrong password are
    /// deliberately collapsed into the same `None`, so callers cannot be
    /// used to probe which accounts exist.
    pub fn authenticate(&self, identity: &str, password: &str) -> (r: Option<&User>)
        ensures
            match r {
                Some(u) => {
                    &&& self.spec_login_lookup(identity@) == Some(*u)
                    &&& password_matches(u.password@, password@)
                },
                None => match self.spec_login_lookup(identity@) {
                    Some(u) => !password_matches(u.password@, password@),
                    None => true,
                },
            },
    {
        let hit = match self.find_ref(&UserProbe::Email(identity.to_owned())) {
            Some(u) => Some(u),
            None => self.find_ref(&UserProbe::Name(identity.to_owned())),
        };
        match hit {
            Some(u) => {
                if u.verify_password(password) {
                    Some(u)
                } else {
                    None
                }
            },
            None => None,
        }
    }
}

/// A claims key resolves to at most one user: in a well-formed store no
/// two users share a pid, so `find_by_claims_key` finds the one user the
/// session token was issued for, or none.
pub proof fn lemma_claims_key_unique(s: UserStore, i: int, j: int)
    requires
        s.wf(),
        0 <= i < s.users@.len(),
        0 <= j < s.users@.len(),
        s.users@[i].pid@ == s.users@[j].pid@,
    ensures
        i == j,
{
    if i < j {
        assert(spec_identity_clash(s.users@[i], s.users@[j]));
    } else if j < i {
        assert(spec_identity_clash(s.users@[j], s.users@[i]));
    }
}

/// Two registrations never both succeed when their usernames or emails
/// collide: once a user with a given name or email stands in the store,
/// `create_with_password` for the same name or email finds a hit, and its
/// contract then forces the result `Err(AlreadyExists)` with the store
/// unchanged.
pub proof fn lemma_registration_uniqueness(
    s: UserStore,
    u: User,
    name2: Seq<char>,
    email2: Seq<char>,
)
    requires
        s.users@.contains(u),
        name2 == u.name@ || email2 == u.email@,
    ensures
        spec_find(s.users@, by_name(name2)) is Some || spec_find(s.users@, by_email(email2))
            is Some,
{
    let i = choose|i: int| 0 <= i < s.users@.len() && s.users@[i] == u;
    if name2 == u.name@ {
        if spec_find(s.users@, by_name(name2)) is None {
            lemma_find_none(s.users@, by_name(name2));
            assert(!by_name(name2)(s.users@[i]));
            assert(false);
        }
    } else {
        if spec_find(s.users@, by_email(email2)) is None {
            lemma_find_none(s.users@, by_email(email2));
            assert(!by_email(email2)(s.users@[i]));
            assert(false);
        }
    }
}

} // verus!

verus! {

/// Matches a user by row id.
pub open spec fn by_uid(id: i32) -> spec_fn(User) -> bool {
    |u: User| u.id == id
}

/// One row of a batch signup.
#[derive(Debug)]
pub struct BatchSignupItem {
    pub username: String,
    pub password: String,
    pub email: String,
    pub displayed_name: Option<String>,
    pub role: Option<i32>,
}

/// A whole batch signup; the course, when given, names the course the new
/// users should later be enrolled in (enrollment itself is not modelled,
/// matching the service it stands in for).
#[derive(Debug)]
pub struct BatchSignupParams {
    pub course: Option<crate::courses::Course>,
    pub users: Vec<BatchSignupItem>,
}

/// What an administrative edit may change: the displayed name is always
/// overwritten with the given value; the password only when one is given.
#[derive(Debug)]
pub struct EditParams {
    pub displayed_name: Option<String>,
    pub password: Option<String>,
}

/// Whether some row of a batch carries a role integer outside the
/// canonical encoding.
pub open spec fn spec_batch_has_bad_role(items: Seq<BatchSignupItem>) -> bool {
    exists|i: int|
        0 <= i < items.len() && ((#[trigger] items[i].role) matches Some(x)
            && crate::role::spec_int_to_role(x) is None)
}

impl UserStore {
    /// Position of the user with this id, tied to the id lookup.
    fn index_of_id(&self, id: i32) -> (r: Option<usize>)
        ensures
            match r {
                Some(k) => {
                    &&& k < self.users@.len()
                    &&& spec_find(self.users@, by_uid(id)) == Some(self.users@[k as int])
                    &&& self.users@[k as int].id == id
                },
                None => spec_find(self.users@, by_uid(id)) is None,
            },
    {
        self.index_of(&UserProbe::Uid(id))
    }

    /// Overwrites row `k` with a row of the same identity; the uniqueness
    /// invariant survives because no identity field changes.
    fn update_row(&mut self, k: usize, u: User)
        requires
            old(self).wf(),
            k < old(self).users@.len(),
            u.name@ == old(self).users@[k as int].name@,
            u.email@ == old(self).users@[k as int].email@,
            u.pid@ == old(self).users@[k as int].pid@,
            u.api_key@ == old(self).users@[k as int].api_key@,
            u.id == old(self).users@[k as int].id,
        ensures
            final(self).wf(),
            final(self).users@ == old(self).users@.update(k as int, u),
            final(self).next_id == old(self).next_id,
    {
        let ghost prev = self.users@;
        let ghost gu = u;
        self.users.set(k, u);
        proof {
            let s1 = self.users@;
            assert forall|i: int, j: int|
                0 <= i < j < s1.len() implies !spec_identity_clash(s1[i], s1[j]) by {
                assert(!spec_identity_clash(prev[i], prev[j]));
            }
            assert forall|i: int| 0 <= i < s1.len() implies (#[trigger] s1[i]).id < self.next_id by {
                assert(prev[i].id < self.next_id);
            }
        }
    }

    /// Rotates the email-verification token: any previous token is replaced
    /// by a fresh random one (invalidating prior links) and the send time is
    /// stamped. Returns the updated row.
    pub fn set_email_verification_sent(&mut self, id: i32, now: i64) -> (r: Result<
        User,
        DomainError,
    >)
        requires
            old(self).wf(),
        ensures
            final(self).wf(),
            final(self).next_id == old(self).next_id,
            match r {
                Ok(u) => {
                    &&& spec_find(old(self).users@, by_uid(id)) matches Some(w) && u == (User {
                        email_verification_token: u.email_verification_token,
                        email_verification_sent_at: Some(now),
                        updated_at: now,
                        ..w
                    })
                    &&& u.email_verification_token is Some
                    &&& exists|k: int|
                        0 <= k < old(self).users@.len() && old(self).users@[k] == spec_find(
                            old(self).users@,
                            by_uid(id),
                        )->0 && final(self).users@ == old(self).users@.update(k, u)
                },
                Err(e) => {
                    &&& e == DomainError::NotFound
                    &&& spec_find(old(self).users@, by_uid(id)) is None
                    &&& *final(self) == *old(self)
                },
            },
    {
        match self.index_of_id(id) {
            None => Err(DomainError::NotFound),
            Some(k) => {
                let mut u = self.users[k].clone();
                u.email_verification_token = Some(ident::fresh_uuid());
                u.email_verification_sent_at = Some(now);
                u.updated_at = now;
                let r = u.clone();
                self.update_row(k, u);
                Ok(r)
            },
        }
    }

    /// Rotates the password-reset token, replacing any previous one, and
    /// stamps the send time. Returns the updated row.
    pub fn set_forgot_password_sent(&mut self, id: i32, now: i64) -> (r: Result<User, DomainError>)
        requires
            old(self).wf(),
        ensures
            final(self).wf(),
            final(self).next_id == old(self).next_id,
            match r {
                Ok(u) => {
                    &&& spec_find(old(self).users@, by_uid(id)) matches Some(w) && u == (User {
                        reset_token: u.reset_token,
                        reset_sent_at: Some(now),
                        updated_at: now,
                        ..w
                    })
                    &&& u.reset_token is Some
                    &&& exists|k: int|
                        0 <= k < old(self).users@.len() && old(self).users@[k] == spec_find(
                            old(self).users@,
                            by_uid(id),
                        )->0 && final(self).users@ == old(self).users@.update(k, u)
                },
                Err(e) => {
                    &&& e == DomainError::NotFound
                    &&& spec_find(old(self).users@, by_uid(id)) is None
                    &&& *final(self) == *old(self)
                },
            },
    {
        match self.index_of_id(id) {
            None => Err(DomainError::NotFound),
            Some(k) => {
                let mut u = self.users[k].clone();
                u.reset_token = Some(ident::fresh_uuid());
                u.reset_sent_at = Some(now);
                u.updated_at = now;
                let r = u.clone();
                self.update_row(k, u);
                Ok(r)
            },
        }
    }

    /// Stamps the time the user's email was verified. Returns the updated
    /// row.
    pub fn verified(&mut self, id: i32, now: i64) -> (r: Result<User, DomainError>)
        requires
            old(self).wf(),
        ensures
            final(self).wf(),
            final(self).next_id == old(self).next_id,
            match r {
                Ok(u) => {
                    &&& spec_find(old(self).users@, by_uid(id)) matches Some(w) && u == (User {
                        email_verified_at: Some(now),
                        updated_at: now,
                        ..w
                    })
                    &&& exists|k: int|
                        0 <= k < old(self).users@.len() && old(self).users@[k] == spec_find(
                            old(self).users@,
                            by_uid(id),
                        )->0 && final(self).users@ == old(self).users@.update(k, u)
                },
                Err(e) => {
                    &&& e == DomainError::NotFound
                    &&& spec_find(old(self).users@, by_uid(id)) is None
                    &&& *final(self) == *old(self)
                },
            },
    {
        match self.index_of_id(id) {
            None => Err(DomainError::NotFound),
            Some(k) => {
                let mut u = self.users[k].clone();
                u.email_verified_at = Some(now);
                u.updated_at = now;
                let r = u.clone();
                self.update_row(k, u);
                Ok(r)
            },
        }
    }

    /// Replaces the user's password in place with a fresh hash of
    /// `password`; the old hash is discarded, not versioned. Returns the
    /// updated row.
    pub fn reset_password(&mut self, id: i32, password: &str, now: i64) -> (r: Result<
        User,
        DomainError,
    >)
        requires
            old(self).wf(),
        ensures
            final(self).wf(),
            final(self).next_id == old(self).next_id,
            match r {
                Ok(u) => {
                    &&& spec_find(old(self).users@, by_uid(id)) matches Some(w) && u == (User {
                        password: u.password,
                        updated_at: now,
                        ..w
                    })
                    &&& password_matches(u.password@, password@)
                    &&& exists|k: int|
                        0 <= k < old(self).users@.len() && old(self).users@[k] == spec_find(
                            old(self).users@,
                            by_uid(id),
                        )->0 && final(self).users@ == old(self).users@.update(k, u)
                },
                Err(e) => {
                    &&& *final(self) == *old(self)
                    &&& match e {
                        DomainError::NotFound => spec_find(old(self).users@, by_uid(id)) is None,
                        DomainError::Internal => spec_find(old(self).users@, by_uid(id)) is Some,
                        _ => false,
                    }
                },
            },
    {
        match self.index_of_id(id) {
            None => Err(DomainError::NotFound),
            Some(k) => {
                let hash = match hashing::hash_password(password) {
                    Ok(h) => h,
                    Err(_) => {
                        return Err(DomainError::Internal);
                    },
                };
                let mut u = self.users[k].clone();
                u.password = hash;
                u.updated_at = now;
                let r = u.clone();
                self.update_row(k, u);
                Ok(r)
            },
        }
    }

    /// The row-level edit: overwrites the displayed name with the given
    /// value, and replaces the password when one is supplied. Returns the
    /// updated row. The management surface, [`Self::edit_user`], gates
    /// this by the acting user's role.
    pub fn edit(&mut self, id: i32, params: &EditParams, now: i64) -> (r: Result<
        User,
        DomainError,
    >)
        requires
            old(self).wf(),
        ensures
            final(self).wf(),
            final(self).next_id == old(self).next_id,
            match r {
                Ok(u) => {
                    &&& spec_find(old(self).users@, by_uid(id)) matches Some(w) && u == (User {
                        password: u.password,
                        displayed_name: u.displayed_name,
                        updated_at: now,
                        ..w
                    })
                    &&& u.displayed_name == params.displayed_name
                    &&& match params.password {
                        Some(p) => password_matches(u.password@, p@),
                        None => u.password == (spec_find(old(self).users@, by_uid(id))->0).password,
                    }
                    &&& exists|k: int|
                        0 <= k < old(self).users@.len() && old(self).users@[k] == spec_find(
                            old(self).users@,
                            by_uid(id),
                        )->0 && final(self).users@ == old(self).users@.update(k, u)
                },
                Err(e) => {
                    &&& *final(self) == *old(self)
                    &&& match e {
                        DomainError::NotFound => spec_find(old(self).users@, by_uid(id)) is None,
                        DomainError::Internal => spec_find(old(self).users@, by_uid(id)) is Some,
                        _ => false,
                    }
                },
            },
    {
        match self.index_of_id(id) {
            None => Err(DomainError::NotFound),
            Some(k) => {
                let new_hash = match &params.password {
                    Some(p) => match hashing::hash_password(p.as_str()) {
                        Ok(h) => Some(h),
                        Err(_) => {
                            return Err(DomainError::Internal);
                        },
                    },
                    None => None,
                };
                let mut u = self.users[k].clone();
                match new_hash {
                    Some(h) => {
                        u.password = h;
                    },
                    None => {},
                }
                u.displayed_name = clone_opt_string(&params.displayed_name);
                u.updated_at = now;
                let r = u.clone();
                self.update_row(k, u);
                Ok(r)
            },
        }
    }
}

} // verus!

verus! {

impl UserStore {
    /// Consumes an email-verification link: a user already verified is a
    /// deliberate no-op success; otherwise the verification time is
    /// stamped. A token nobody holds misses.
    pub fn consume_verification_token(&mut self, token: &str, now: i64) -> (r: Result<
        User,
        DomainError,
    >)
        requires
            old(self).wf(),
        ensures
            final(self).wf(),
            final(self).next_id == old(self).next_id,
            match r {
                Ok(u) => spec_find(old(self).users@, by_verification_token(token@))
                    matches Some(w) && (if w.email_verified_at is Some {
                    u == w && *final(self) == *old(self)
                } else {
                    &&& u == (User { email_verified_at: Some(now), updated_at: now, ..w })
                    &&& exists|k: int|
                        0 <= k < old(self).users@.len() && old(self).users@[k] == w && final(self).users@ == old(self).users@.update(k, u)
                }),
                Err(e) => {
                    &&& e == DomainError::NotFound
                    &&& spec_find(old(self).users@, by_verification_token(token@)) is None
                    &&& *final(self) == *old(self)
                },
            },
    {
        match self.index_of(&UserProbe::VerificationToken(token.to_owned())) {
            None => Err(DomainError::NotFound),
            Some(k) => {
                if self.users[k].email_verified_at.is_some() {
                    Ok(self.users[k].clone())
                } else {
                    let mut u = self.users[k].clone();
                    u.email_verified_at = Some(now);
                    u.updated_at = now;
                    let r = u.clone();
                    self.update_row(k, u);
                    Ok(r)
                }
            },
        }
    }

    /// Consumes a password-reset link: the password is immediately
    /// re-hashed and replaced, and the one-shot token is cleared so the
    /// link cannot authorize a second reset. A token nobody holds is
    /// deliberately answered like success, so callers cannot probe which
    /// tokens exist.
    pub fn consume_reset_token(&mut self, token: &str, new_password: &str, now: i64) -> (r: Result<
        (),
        DomainError,
    >)
        requires
            old(self).wf(),
        ensures
            final(self).wf(),
            final(self).next_id == old(self).next_id,
            match spec_find(old(self).users@, by_reset_token(token@)) {
                None => r == Ok::<(), DomainError>(()) && *final(self) == *old(self),
                Some(w) => match r {
                    Ok(_) => exists|k: int|
                        {
                            &&& 0 <= k < old(self).users@.len()
                            &&& old(self).users@[k] == w
                            &&& final(self).users@ == old(self).users@.update(
                                k,
                                final(self).users@[k],
                            )
                            &&& final(self).users@[k] == (User {
                                password: final(self).users@[k].password,
                                reset_token: None,
                                reset_sent_at: None,
                                updated_at: now,
                                ..w
                            })
                            &&& password_matches(final(self).users@[k].password@, new_password@)
                        },
                    Err(e) => e == DomainError::Internal && *final(self) == *old(self),
                },
            },
    {
        match self.index_of(&UserProbe::ResetToken(token.to_owned())) {
            None => Ok(()),
            Some(k) => {
                let hash = match hashing::hash_password(new_password) {
                    Ok(h) => h,
                    Err(_) => {
                        return Err(DomainError::Internal);
                    },
                };
                let mut u = self.users[k].clone();
                u.password = hash;
                u.reset_token = None;
                u.reset_sent_at = None;
                u.updated_at = now;
                self.update_row(k, u);
                Ok(())
            },
        }
    }

    /// Changes a password for the holder of a session: the claims key must
    /// resolve, and the old password must match, before the new one is
    /// hashed and stored.
    pub fn change_password(
        &mut self,
        claims_key: &str,
        old_password: &str,
        new_password: &str,
        now: i64,
    ) -> (r: Result<User, DomainError>)
        requires
            old(self).wf(),
        ensures
            final(self).wf(),
            final(self).next_id == old(self).next_id,
            match r {
                Ok(u) => {
                    &&& uuid_canon(claims_key@) matches Some(c) && spec_find(
                        old(self).users@,
                        by_pid(c),
                    ) matches Some(w) && {
                        &&& password_matches(w.password@, old_password@)
                        &&& u == (User { password: u.password, updated_at: now, ..w })
                        &&& password_matches(u.password@, new_password@)
                        &&& exists|k: int|
                            0 <= k < old(self).users@.len() && old(self).users@[k] == w && final(self).users@ == old(self).users@.update(k, u)
                    }
                },
                Err(e) => {
                    &&& *final(self) == *old(self)
                    &&& match e {
                        DomainError::NotFound => match uuid_canon(claims_key@) {
                            Some(c) => spec_find(old(self).users@, by_pid(c)) is None,
                            None => true,
                        },
                        DomainError::PermissionDenied => uuid_canon(claims_key@)
                            matches Some(c) && spec_find(old(self).users@, by_pid(c))
                            matches Some(w) && !password_matches(w.password@, old_password@),
                        DomainError::Internal => uuid_canon(claims_key@) matches Some(c)
                            && spec_find(old(self).users@, by_pid(c)) matches Some(w)
                            && password_matches(w.password@, old_password@),
                        _ => false,
                    }
                },
            },
    {
        let canon = match ident::canonical_uuid(claims_key) {
            Some(c) => c,
            None => {
                return Err(DomainError::NotFound);
            },
        };
        match self.index_of(&UserProbe::Pid(canon)) {
            None => Err(DomainError::NotFound),
            Some(k) => {
                if !self.users[k].verify_password(old_password) {
                    return Err(DomainError::PermissionDenied);
                }
                let hash = match hashing::hash_password(new_password) {
                    Ok(h) => h,
                    Err(_) => {
                        return Err(DomainError::Internal);
                    },
                };
                let mut u = self.users[k].clone();
                u.password = hash;
                u.updated_at = now;
                let r = u.clone();
                self.update_row(k, u);
                Ok(r)
            },
        }
    }
}

} // verus!

verus! {

/// Clones a user vector exactly.
fn clone_users(v: &Vec<User>) -> (r: Vec<User>)
    ensures
        r@ == v@,
{
    let mut r: Vec<User> = Vec::new();
    let n = v.len();
    for k in 0..n
        invariant
            n == v@.len(),
            r@ =~= v@.subrange(0, k as int),
    {
        r.push(v[k].clone());
    }
    proof {
        assert(v@.subrange(0, n as int) =~= v@);
    }
    r
}

/// Users of this role (or all of them, when no role is given), in store
/// order.
pub open spec fn spec_role_filtered(s: Seq<User>, role: Option<Role>) -> Seq<User>
    decreases s.len(),
{
    if s.len() == 0 {
        Seq::empty()
    } else {
        let rest = spec_role_filtered(s.drop_first(), role);
        if (match role {
            Some(r) => s[0].role == r,
            None => true,
        }) {
            seq![s[0]] + rest
        } else {
            rest
        }
    }
}

impl UserStore {
    /// Creates a whole roster of users inside one all-or-nothing step.
    /// The management surface, [`Self::admin_batch_signup`], gates this by
    /// the acting user's role.
    ///
    /// A row with an unrecognized role integer aborts the batch before any
    /// row is created, and a row whose fields fail registration validation
    /// aborts it with that row's complaints. Rows whose username or email
    /// already exists adopt the existing account instead of failing;
    /// freshly created rows take the row's password and displayed name and
    /// are marked verified. On any error the store is exactly as it was.
    pub fn batch_signup(&mut self, params: &BatchSignupParams, now: i64) -> (r: Result<
        Vec<User>,
        DomainError,
    >)
        requires
            old(self).wf(),
        ensures
            final(self).wf(),
            r is Err ==> *final(self) == *old(self),
            spec_batch_has_bad_role(params.users@) ==> (r matches Err(DomainError::Validation(v))
                && v@ == seq![ValidationIssue::RoleUnknown]),
            match r {
                Ok(list) => {
                    &&& !spec_batch_has_bad_role(params.users@)
                    &&& list@.len() == params.users@.len()
                    &&& final(self).users@.len() >= old(self).users@.len()
                    &&& final(self).users@.subrange(0, old(self).users@.len() as int) == old(
                        self,
                    ).users@
                    &&& forall|i: int|
                        0 <= i < list@.len() ==> {
                            let item = params.users@[i];
                            let u = #[trigger] list@[i];
                            ||| {
                                // a freshly created account carries the row's data
                                &&& u.name@ == item.username@
                                &&& u.email@ == item.email@
                                &&& password_matches(u.password@, item.password@)
                                &&& u.displayed_name == item.displayed_name
                                &&& u.email_verified_at == Some(now)
                            }
                                // an adopted account matched the row's username or email
                            ||| u.name@ == item.username@
                            ||| u.email@ == item.email@
                        }
                    &&& forall|k: int|
                        old(self).users@.len() <= k < final(self).users@.len() ==> (
                        #[trigger] final(self).users@[k]).email_verified_at == Some(now)
                },
                Err(e) => match e {
                    DomainError::Validation(v) => {
                        ||| {
                            &&& spec_batch_has_bad_role(params.users@)
                            &&& v@ == seq![ValidationIssue::RoleUnknown]
                        }
                        ||| exists|i: int|
                            {
                                &&& 0 <= i < params.users@.len()
                                &&& v@ == spec_registration_issues(
                                    (#[trigger] params.users@[i]).username@,
                                    params.users@[i].email@,
                                )
                                &&& v@.len() > 0
                            }
                    },
                    DomainError::Internal => !spec_batch_has_bad_role(params.users@),
                    _ => false,
                },
            },
    {
        let n = params.users.len();
        for k in 0..n
            invariant
                old(self).wf(),
                *self == *old(self),
                n == params.users@.len(),
                forall|j: int|
                    0 <= j < k ==> !((#[trigger] params.users@[j].role) matches Some(x)
                        && crate::role::spec_int_to_role(x) is None),
        {
            let bad = match params.users[k].role {
                Some(x) => crate::role::int_to_role(x).is_none(),
                None => false,
            };
            if bad {
                let mut v: Vec<ValidationIssue> = Vec::new();
                v.push(ValidationIssue::RoleUnknown);
                proof {
                    assert(v@ =~= seq![ValidationIssue::RoleUnknown]);
                }
                return Err(DomainError::Validation(v));
            }
        }
        assert(!spec_batch_has_bad_role(params.users@));
        let ghost base = self.users@;
        let mut work = UserStore { users: clone_users(&self.users), next_id: self.next_id };
        let mut created: Vec<User> = Vec::new();
        for idx in 0..n
            invariant
                old(self).wf(),
                *self == *old(self),
                base == old(self).users@,
                n == params.users@.len(),
                work.wf(),
                work.users@.len() >= base.len(),
                work.users@.subrange(0, base.len() as int) == base,
                forall|k: int|
                    base.len() <= k < work.users@.len() ==> (
                    #[trigger] work.users@[k]).email_verified_at == Some(now),
                created@.len() == idx,
                !spec_batch_has_bad_role(params.users@),
                forall|i: int|
                    0 <= i < idx ==> {
                        let item = params.users@[i];
                        let u = #[trigger] created@[i];
                        ||| {
                            &&& u.name@ == item.username@
                            &&& u.email@ == item.email@
                            &&& password_matches(u.password@, item.password@)
                            &&& u.displayed_name == item.displayed_name
                            &&& u.email_verified_at == Some(now)
                        }
                        ||| u.name@ == item.username@
                        ||| u.email@ == item.email@
                    },
        {
            let item = &params.users[idx];
            let rp = RegisterParams {
                email: item.email.clone(),
                password: item.password.clone(),
                username: item.username.clone(),
            };
            let ghost before = work.users@;
            match work.create_with_password(&rp, now) {
                Ok(u) => {
                    let k = work.users.len() - 1;
                    assert(work.users@[k as int] == u);
                    let mut u2 = work.users[k].clone();
                    u2.displayed_name = clone_opt_string(&item.displayed_name);
                    u2.email_verified_at = Some(now);
                    u2.updated_at = now;
                    let out = u2.clone();
                    work.update_row(k, u2);
                    proof {
                        assert(work.users@.subrange(0, base.len() as int) =~= before.subrange(
                            0,
                            base.len() as int,
                        ));
                        assert(out.name@ == params.users@[idx as int].username@);
                        assert(out.email@ == params.users@[idx as int].email@);
                        assert(password_matches(out.password@, params.users@[idx as int].password@));
                        assert(out.displayed_name == params.users@[idx as int].displayed_name);
                    }
                    created.push(out);
                },
                Err(e) => {
                    let adopted: User = match e {
                        DomainError::AlreadyExists => {
                            let by_name_hit = match work.find_by_username(item.username.as_str()) {
                                Ok(w) => Some(w.clone()),
                                Err(_) => None,
                            };
                            match by_name_hit {
                                Some(w) => {
                                    proof {
                                        lemma_find_some(work.users@, by_name(item.username@));
                                    }
                                    w
                                },
                                None => match work.find_by_email(item.email.as_str()) {
                                    Ok(w) => {
                                        proof {
                                            lemma_find_some(work.users@, by_email(item.email@));
                                        }
                                        w.clone()
                                    },
                                    Err(_) => {
                                        // `create_with_password` reports a duplicate only
                                        // when the username or the email is taken, so one
                                        // of the two lookups above must have hit
                                        proof {
                                            assert(rp.username@ == item.username@);
                                            assert(rp.email@ == item.email@);
                                            assert(false);
                                        }
                                        return Err(DomainError::Internal);
                                    },
                                },
                            }
                        },
                        other => {
                            proof {
                                assert(rp.username@ == params.users@[idx as int].username@);
                                assert(rp.email@ == params.users@[idx as int].email@);
                            }
                            return Err(other);
                        },
                    };
                    created.push(adopted);
                },
            }
        }
        self.users = work.users;
        self.next_id = work.next_id;
        Ok(created)
    }

    /// Lists users, optionally restricted to one role, windowed by
    /// `offset` and `count` in store order.
    pub fn list_users(&self, role: Option<Role>, offset: usize, count: usize) -> (v: Vec<User>)
        ensures
            v@ == crate::seqtools::spec_window(
                spec_role_filtered(self.users@, role),
                offset as int,
                count as int,
            ),
    {
        let mut all: Vec<User> = Vec::new();
        let n = self.users.len();
        assert(self.users@.skip(0) =~= self.users@);
        for k in 0..n
            invariant
                n == self.users@.len(),
                spec_role_filtered(self.users@, role) =~= all@ + spec_role_filtered(
                    self.users@.skip(k as int),
                    role,
                ),
        {
            let keep = match role {
                Some(r) => {
                    let ur = self.users[k].role;
                    crate::role::role_to_int(&ur) == crate::role::role_to_int(&r)
                },
                None => true,
            };
            proof {
                assert(self.users@.skip(k as int)[0] == self.users@[k as int]);
                assert(self.users@.skip(k as int).drop_first() =~= self.users@.skip(k as int + 1));
            }
            if keep {
                all.push(self.users[k].clone());
                proof {
                    assert(spec_role_filtered(self.users@, role) =~= all@ + spec_role_filtered(
                        self.users@.skip(k as int + 1),
                        role,
                    ));
                }
            }
        }
        proof {
            assert(self.users@.skip(n as int) =~= Seq::<User>::empty());
            assert(spec_role_filtered(Seq::<User>::empty(), role) =~= Seq::<User>::empty());
            assert(all@ =~= spec_role_filtered(self.users@, role));
        }
        let total = all.len();
        let start = if offset > total {
            total
        } else {
            offset
        };
        let end = if count > total - start {
            total
        } else {
            start + count
        };
        let mut v: Vec<User> = Vec::new();
        for k in start..end
            invariant
                end <= total,
                total == all@.len(),
                start <= k <= end,
                v@ =~= all@.subrange(start as int, k as int),
        {
            v.push(all[k].clone());
        }
        proof {
            assert(v@ =~= crate::seqtools::spec_window(all@, offset as int, count as int));
        }
        v
    }
}

} // verus!

verus! {

impl UserStore {
    /// Starts the forgot-password flow: when the email belongs to an
    /// account, its reset token is rotated and stamped, and the updated
    /// row is handed back for mailing. A miss is deliberately answered in
    /// the same shape as a hit — there is no error — so the flow cannot
    /// be used to probe which emails have accounts.
    pub fn forgot_password(&mut self, email: &str, now: i64) -> (r: Option<User>)
        requires
            old(self).wf(),
        ensures
            final(self).wf(),
            final(self).next_id == old(self).next_id,
            match spec_find(old(self).users@, by_email(email@)) {
                None => r is None && *final(self) == *old(self),
                Some(w) => r matches Some(u) && {
                    &&& u == (User {
                        reset_token: u.reset_token,
                        reset_sent_at: Some(now),
                        updated_at: now,
                        ..w
                    })
                    &&& u.reset_token is Some
                    &&& exists|k: int|
                        0 <= k < old(self).users@.len() && old(self).users@[k] == w && final(self).users@ == old(self).users@.update(k, u)
                },
            },
    {
        match self.index_of(&UserProbe::Email(email.to_owned())) {
            None => None,
            Some(k) => {
                let mut u = self.users[k].clone();
                u.reset_token = Some(ident::fresh_uuid());
                u.reset_sent_at = Some(now);
                u.updated_at = now;
                let r = u.clone();
                self.update_row(k, u);
                Some(r)
            },
        }
    }
}

} // verus!

verus! {

impl UserStore {
    /// The batch-signup write as the management surface exposes it: the
    /// acting user must hold the admin role (checked through
    /// [`crate::role::require_role`]) before any row is touched; an
    /// admin's batch then behaves exactly as [`Self::batch_signup`] says.
    pub fn admin_batch_signup(
        &mut self,
        actor: &User,
        params: &BatchSignupParams,
        now: i64,
    ) -> (r: Result<Vec<User>, DomainError>)
        requires
            old(self).wf(),
        ensures
            final(self).wf(),
            r is Err ==> *final(self) == *old(self),
            actor.role != Role::Admin ==> r == Err::<Vec<User>, DomainError>(
                DomainError::PermissionDenied,
            ),
            actor.role == Role::Admin ==> {
                &&& (spec_batch_has_bad_role(params.users@) ==> (r matches Err(
                    DomainError::Validation(v),
                ) && v@ == seq![ValidationIssue::RoleUnknown]))
                &&& match r {
                    Ok(list) => {
                        &&& !spec_batch_has_bad_role(params.users@)
                        &&& list@.len() == params.users@.len()
                        &&& final(self).users@.len() >= old(self).users@.len()
                        &&& final(self).users@.subrange(0, old(self).users@.len() as int) == old(
                            self,
                        ).users@
                        &&& forall|i: int|
                            0 <= i < list@.len() ==> {
                                let item = params.users@[i];
                                let u = #[trigger] list@[i];
                                ||| {
                                    &&& u.name@ == item.username@
                                    &&& u.email@ == item.email@
                                    &&& password_matches(u.password@, item.password@)
                                    &&& u.displayed_name == item.displayed_name
                                    &&& u.email_verified_at == Some(now)
                                }
                                ||| u.name@ == item.username@
                                ||| u.email@ == item.email@
                            }
                        &&& forall|k: int|
                            old(self).users@.len() <= k < final(self).users@.len() ==> (
                            #[trigger] final(self).users@[k]).email_verified_at == Some(now)
                    },
                    Err(e) => match e {
                        DomainError::Validation(v) => {
                            ||| {
                                &&& spec_batch_has_bad_role(params.users@)
                                &&& v@ == seq![ValidationIssue::RoleUnknown]
                            }
                            ||| exists|i: int|
                                {
                                    &&& 0 <= i < params.users@.len()
                                    &&& v@ == spec_registration_issues(
                                        (#[trigger] params.users@[i]).username@,
                                        params.users@[i].email@,
                                    )
                                    &&& v@.len() > 0
                                }
                        },
                        DomainError::Internal => !spec_batch_has_bad_role(params.users@),
                        _ => false,
                    },
                }
            },
    {
        match require_admin(actor) {
            Ok(_) => self.batch_signup(params, now),
            Err(e) => Err(e),
        }
    }

    /// The administrative account edit as the management surface exposes
    /// it: the acting user must hold the admin role before anything is
    /// looked at; the account is then addressed by username and edited as
    /// [`Self::edit`] would edit it.
    pub fn edit_user(
        &mut self,
        actor: &User,
        username: &str,
        params: &EditParams,
        now: i64,
    ) -> (r: Result<User, DomainError>)
        requires
            old(self).wf(),
        ensures
            final(self).wf(),
            final(self).next_id == old(self).next_id,
            r is Err ==> *final(self) == *old(self),
            actor.role != Role::Admin ==> r == Err::<User, DomainError>(
                DomainError::PermissionDenied,
            ),
            actor.role == Role::Admin ==> match r {
                Ok(u) => {
                    &&& spec_find(old(self).users@, by_name(username@)) matches Some(w) && u == (
                    User { password: u.password, displayed_name: u.displayed_name, updated_at: now, ..w })
                    &&& u.displayed_name == params.displayed_name
                    &&& match params.password {
                        Some(p) => password_matches(u.password@, p@),
                        None => u.password == (spec_find(
                            old(self).users@,
                            by_name(username@),
                        )->0).password,
                    }
                    &&& exists|k: int|
                        0 <= k < old(self).users@.len() && old(self).users@[k] == spec_find(
                            old(self).users@,
                            by_name(username@),
                        )->0 && final(self).users@ == old(self).users@.update(k, u)
                },
                Err(e) => match e {
                    DomainError::NotFound => spec_find(old(self).users@, by_name(username@))
                        is None,
                    DomainError::Internal => spec_find(old(self).users@, by_name(username@))
                        is Some,
                    _ => false,
                },
            },
    {
        match require_admin(actor) {
            Ok(_) => {},
            Err(e) => {
                return Err(e);
            },
        }
        match self.index_of(&UserProbe::Name(username.to_owned())) {
            None => Err(DomainError::NotFound),
            Some(k) => {
                let new_hash = match &params.password {
                    Some(p) => match hashing::hash_password(p.as_str()) {
                        Ok(h) => Some(h),
                        Err(_) => {
                            return Err(DomainError::Internal);
                        },
                    },
                    None => None,
                };
                let mut u = self.users[k].clone();
                match new_hash {
                    Some(h) => {
                        u.password = h;
                    },
                    None => {},
                }
                u.displayed_name = clone_opt_string(&params.displayed_name);
                u.updated_at = now;
                let r = u.clone();
                self.update_row(k, u);
                Ok(r)
            },
        }
    }
}

/// The role gate of the user-management writes: only an admin passes.
fn require_admin(actor: &User) -> (r: Result<(), DomainError>)
    ensures
        r is Ok <==> actor.role == Role::Admin,
        r is Err ==> r == Err::<(), DomainError>(DomainError::PermissionDenied),
{
    let mut allowed: Vec<Role> = Vec::new();
    allowed.push(Role::Admin);
    let r = crate::role::require_role(&actor.role, &allowed);
    proof {
        assert(allowed@ =~= seq![Role::Admin]);
        assert(allowed@[0] == Role::Admin);
        if actor.role == Role::Admin {
            assert(allowed@.contains(actor.role));
        }
        if allowed@.contains(actor.role) {
            let i = choose|i: int| 0 <= i < allowed@.len() && allowed@[i] == actor.role;
            assert(allowed@[i] == Role::Admin);
        }
    }
    r
}

} // verus!

verus! {

/// The claims payload of a session token: the holder's stable external
/// identifier as the claims key, and an absolute expiry. Signing the
/// payload into a bearer token — and checking the signature on the way
/// back in — is the request-authentication boundary's business; the
/// contract this store owes is that the claims key resolves back to
/// exactly one user ([`UserStore::find_by_claims_key`],
/// [`lemma_claims_key_unique`]).
#[derive(Debug)]
pub struct SessionClaims {
    pub claims_key: String,
    pub expires_at: i64,
}

impl User {
    /// Builds the claims a session token for this user carries: keyed by
    /// the pid (never the row id) and expiring `ttl` seconds from `now`.
    pub fn session_claims(&self, now: i64, ttl: i64) -> (c: SessionClaims)
        requires
            0 <= ttl,
            now <= i64::MAX - ttl,
        ensures
            c.claims_key == self.pid,
            c.expires_at == now + ttl,
    {
        SessionClaims { claims_key: self.pid.clone(), expires_at: now + ttl }
    }
}

} // verus!
