//! User accounts and session authentication: registration validation,
//! credential checking and session expiry are verified logic over plain
//! values; password hashing and id generation call outside code through
//! trusted wrappers, and the current time comes in as a plain argument.

use vstd::prelude::*;
use vstd::string::StrSliceExecFns;

use crate::text::str_eq;

verus! {

/// A web-framework user account.
pub struct User {
    pub id: String,
    pub username: String,
    pub hashed_password: String,
}

/// A web-framework login session.
pub struct Session {
    pub id: String,
    pub user_id: String,
    pub expiry: u64,
}

/// An account of the authentication module.
pub struct AuthUser {
    pub id: String,
    pub username: String,
    pub email: String,
    pub hashed_password: String,
    pub created_at: u64,
    pub is_active: bool,
}

/// A session of the authentication module.
pub struct AuthSession {
    pub id: String,
    pub user_id: String,
    pub created_at: u64,
    pub expires_at: u64,
    pub ip_address: Option<String>,
}

/// Whether `password` is the password that `hash` was derived from, as
/// bcrypt decides it: a function of the two texts alone.
pub uninterp spec fn bcrypt_matches(password: Seq<char>, hash: Seq<char>) -> bool;

/// Relies on bcrypt::hash: derives a salted hash of the password; the
/// salt is drawn from the operating system, so nothing relates two calls.
/// A successful hash is sixty characters, and bcrypt's own verify accepts
/// the hashed password against it, since verify re-derives the hash from
/// the cost and salt stored inside it.
#[verifier::external_body]
fn bcrypt_hash(password: &str) -> (r: Option<String>)
    ensures
        r matches Some(h) ==> h@.len() == 60 && bcrypt_matches(password@, h@),
{
    match bcrypt::hash(password, bcrypt::DEFAULT_COST) {
        Ok(h) => Some(h),
        Err(_) => None,
    }
}

/// Relies on bcrypt::verify: decides whether the password matches the
/// hash, a deterministic function of its two arguments.
#[verifier::external_body]
fn bcrypt_verify(password: &str, hash: &str) -> (r: bool)
    ensures
        r == bcrypt_matches(password@, hash@),
{
    bcrypt::verify(password, hash).unwrap_or(false)
}

/// Relies on uuid::Uuid::new_v4 and its hyphenated rendering: a fresh
/// random identifier, always thirty-six characters; nothing relates two
/// calls. It draws on the operating system's randomness source and, like
/// the process-wide random state it seeds, aborts if that source fails.
#[verifier::external_body]
fn fresh_id() -> (r: String)
    ensures
        r@.len() == 36,
{
    uuid::Uuid::new_v4().to_string()
}

/// How long a session stays valid, in seconds.
pub const SESSION_SECONDS: u64 = 604800;

/// Why a registration was refused, or that it succeeded with the new
/// account's id.
pub enum RegisterOutcome {
    Registered(String),
    UsernameTooShort,
    PasswordTooShort,
    EmailInvalid,
    UsernameTaken,
    EmailTaken,
    HashingFailed,
}

/// Why a login was refused, or the fresh session's id.
pub enum LoginOutcome {
    LoggedIn(String),
    UnknownUser,
    AccountInactive,
    BadCredentials,
}

/// Whether some user of the list carries this username.
pub open spec fn has_username(users: Seq<AuthUser>, name: Seq<char>) -> bool {
    exists|i: int| 0 <= i < users.len() && (#[trigger] users[i]).username@ == name
}

/// Whether some user of the list carries this email.
pub open spec fn has_email(users: Seq<AuthUser>, email: Seq<char>) -> bool {
    exists|i: int| 0 <= i < users.len() && (#[trigger] users[i]).email@ == email
}

/// Whether the text contains an at-sign.
pub open spec fn contains_at(s: Seq<char>) -> bool {
    exists|i: int| 0 <= i < s.len() && s[i] == '@'
}

/// The store of accounts and sessions that the authentication module
/// works against.
pub struct AuthStore {
    pub users: Vec<AuthUser>,
    pub sessions: Vec<AuthSession>,
}

impl AuthStore {
    /// An empty store.
    pub fn new() -> (r: AuthStore)
        ensures
            r.users@.len() == 0,
            r.sessions@.len() == 0,
    {
        AuthStore { users: Vec::new(), sessions: Vec::new() }
    }

    /// The index of the user with this username, if any.
    fn find_user(&self, username: &str) -> (r: Option<usize>)
        ensures
            match r {
                Some(i) => i < self.users@.len() && self.users@[i as int].username@ == username@,
                None => !has_username(self.users@, username@),
            },
    {
        let n = self.users.len();
        let mut i: usize = 0;
        while i < n
            invariant
                n == self.users@.len(),
                i <= n,
                forall|k: int| 0 <= k < i ==> (#[trigger] self.users@[k]).username@ != username@,
            decreases n - i,
        {
            if str_eq(self.users[i].username.as_str(), username) {
                return Some(i);
            }
            i += 1;
        }
        None
    }

    /// Whether any user carries this email.
    fn email_taken(&self, email: &str) -> (r: bool)
        ensures
            r == has_email(self.users@, email@),
    {
        let n = self.users.len();
        let mut i: usize = 0;
        while i < n
            invariant
                n == self.users@.len(),
                i <= n,
                forall|k: int| 0 <= k < i ==> (#[trigger] self.users@[k]).email@ != email@,
            decreases n - i,
        {
            if str_eq(self.users[i].email.as_str(), email) {
                return true;
            }
            i += 1;
        }
        false
    }

    /// Register a new account: the username needs at least three
    /// characters, the password at least six, the email an at-sign, and
    /// both username and email must be free; the checks apply in that
    /// order.
    pub fn register(&mut self, username: &str, email: &str, password: &str, now: u64) -> (r:
        RegisterOutcome)
        ensures
            final(self).sessions@ == old(self).sessions@,
            username@.len() < 3 ==> (r is UsernameTooShort) && final(self).users@ == old(self).users@,
            username@.len() >= 3 && password@.len() < 6 ==> (r is PasswordTooShort) && final(self).users@ == old(self).users@,
            username@.len() >= 3 && password@.len() >= 6 && !contains_at(email@) ==> (r
                is EmailInvalid) && final(self).users@ == old(self).users@,
            username@.len() >= 3 && password@.len() >= 6 && contains_at(email@) && has_username(
                old(self).users@,
                username@,
            ) ==> (r is UsernameTaken) && final(self).users@ == old(self).users@,
            username@.len() >= 3 && password@.len() >= 6 && contains_at(email@) && !has_username(
                old(self).users@,
                username@,
            ) && has_email(old(self).users@, email@) ==> (r is EmailTaken) && final(self).users@
                == old(self).users@,
            username@.len() >= 3 && password@.len() >= 6 && contains_at(email@) && !has_username(
                old(self).users@,
                username@,
            ) && !has_email(old(self).users@, email@) ==> ((r matches RegisterOutcome::Registered(
                id,
            )) || (r is HashingFailed)),
            r is HashingFailed ==> final(self).users@ == old(self).users@,
            r matches RegisterOutcome::Registered(id) ==> final(self).users@.len() == old(self).users@.len()
                + 1 && final(self).users@.last().username@ == username@
                && final(self).users@.last().email@ == email@
                && final(self).users@.last().created_at == now
                && final(self).users@.last().is_active && bcrypt_matches(
                password@,
                final(self).users@.last().hashed_password@,
            ) && final(self).users@.last().id@ == id@,
    {
        if username.unicode_len() < 3 {
            return RegisterOutcome::UsernameTooShort;
        }
        if password.unicode_len() < 6 {
            return RegisterOutcome::PasswordTooShort;
        }
        if !contains_at_exec(email) {
            return RegisterOutcome::EmailInvalid;
        }
        if matches!(self.find_user(username), Option::Some(_)) {
            return RegisterOutcome::UsernameTaken;
        }
        if self.email_taken(email) {
            return RegisterOutcome::EmailTaken;
        }
        match bcrypt_hash(password) {
            None => RegisterOutcome::HashingFailed,
            Some(hashed_password) => {
                let id = fresh_id();
                let user = AuthUser {
                    id: id.clone(),
                    username: String::from_str(username),
                    email: String::from_str(email),
                    hashed_password,
                    created_at: now,
                    is_active: true,
                };
                self.users.push(user);
                RegisterOutcome::Registered(id)
            },
        }
    }

    /// Log an account in: the username must exist, the account must be
    /// active, and bcrypt must accept the password against the stored
    /// hash; success opens a session that expires a week from `now`.
    pub fn login(&mut self, username: &str, password: &str, now: u64) -> (r: LoginOutcome)
        requires
            now + SESSION_SECONDS <= u64::MAX,
        ensures
            final(self).users@ == old(self).users@,
            !has_username(old(self).users@, username@) ==> (r is UnknownUser)
                && final(self).sessions@ == old(self).sessions@,
            r matches LoginOutcome::LoggedIn(sid) ==> {
                &&& final(self).sessions@.len() == old(self).sessions@.len() + 1
                &&& final(self).sessions@.last().id@ == sid@
                &&& final(self).sessions@.last().created_at == now
                &&& final(self).sessions@.last().expires_at == now + SESSION_SECONDS
                &&& exists|i: int|
                    0 <= i < old(self).users@.len() && (#[trigger] old(self).users@[i]).username@
                        == username@ && old(self).users@[i].is_active && bcrypt_matches(
                        password@,
                        old(self).users@[i].hashed_password@,
                    ) && final(self).sessions@.last().user_id@ == old(self).users@[i].id@
            },
            (r is BadCredentials) ==> final(self).sessions@ == old(self).sessions@,
            (r is AccountInactive) ==> final(self).sessions@ == old(self).sessions@,
    {
        let found = self.find_user(username);
        match found {
            None => LoginOutcome::UnknownUser,
            Some(i) => {
                if !self.users[i].is_active {
                    return LoginOutcome::AccountInactive;
                }
                if !bcrypt_verify(password, self.users[i].hashed_password.as_str()) {
                    return LoginOutcome::BadCredentials;
                }
                let sid = fresh_id();
                let session = AuthSession {
                    id: sid.clone(),
                    user_id: self.users[i].id.clone(),
                    created_at: now,
                    expires_at: now + SESSION_SECONDS,
                    ip_address: None,
                };
                self.sessions.push(session);
                LoginOutcome::LoggedIn(sid)
            },
        }
    }

    /// The index of the session with this id, if any.
    fn find_session(&self, session_id: &str) -> (r: Option<usize>)
        ensures
            match r {
                Some(i) => i < self.sessions@.len() && self.sessions@[i as int].id@
                    == session_id@,
                None => forall|k: int|
                    0 <= k < self.sessions@.len() ==> (#[trigger] self.sessions@[k]).id@
                        != session_id@,
            },
    {
        let n = self.sessions.len();
        let mut i: usize = 0;
        while i < n
            invariant
                n == self.sessions@.len(),
                i <= n,
                forall|k: int| 0 <= k < i ==> (#[trigger] self.sessions@[k]).id@ != session_id@,
            decreases n - i,
        {
            if str_eq(self.sessions[i].id.as_str(), session_id) {
                return Some(i);
            }
            i += 1;
        }
        None
    }

    /// Resolve a session id at time `now`: an unexpired session yields
    /// its user id; an expired one is removed and yields nothing.
    pub fn authenticate(&mut self, session_id: &str, now: u64) -> (r: Option<String>)
        ensures
            final(self).users@ == old(self).users@,
            match r {
                Some(uid) => {
                    &&& final(self).sessions@ == old(self).sessions@
                    &&& exists|i: int|
                        0 <= i < old(self).sessions@.len() && (#[trigger] old(self).sessions@[i]).id@
                            == session_id@ && now < old(self).sessions@[i].expires_at && uid@
                            == old(self).sessions@[i].user_id@
                },
                None => ((forall|k: int|
                    0 <= k < old(self).sessions@.len() ==> (#[trigger] old(self).sessions@[k]).id@
                        != session_id@) && final(self).sessions@ == old(self).sessions@) || (
                exists|i: int|
                    0 <= i < old(self).sessions@.len() && (#[trigger] old(self).sessions@[i]).id@
                        == session_id@ && now >= old(self).sessions@[i].expires_at
                        && final(self).sessions@ == old(self).sessions@.remove(i)),
            },
    {
        let found = self.find_session(session_id);
        match found {
            None => None,
            Some(i) => {
                if now < self.sessions[i].expires_at {
                    Some(self.sessions[i].user_id.clone())
                } else {
                    self.sessions.remove(i);
                    None
                }
            },
        }
    }

    /// Close a session: whether one with this id existed, and if so,
    /// remove it.
    pub fn logout(&mut self, session_id: &str) -> (r: bool)
        ensures
            final(self).users@ == old(self).users@,
            r ==> final(self).sessions@.len() + 1 == old(self).sessions@.len(),
            !r ==> final(self).sessions@ == old(self).sessions@ && (forall|k: int|
                0 <= k < old(self).sessions@.len() ==> (#[trigger] old(self).sessions@[k]).id@
                    != session_id@),
    {
        let found = self.find_session(session_id);
        match found {
            None => false,
            Some(i) => {
                self.sessions.remove(i);
                true
            },
        }
    }
}

/// Whether the text contains an at-sign.
fn contains_at_exec(s: &str) -> (r: bool)
    ensures
        r == contains_at(s@),
{
    let n = s.unicode_len();
    let mut i: usize = 0;
    while i < n
        invariant
            n == s@.len(),
            i <= n,
            forall|k: int| 0 <= k < i ==> s@[k] != '@',
        decreases n - i,
    {
        if s.get_char(i) == '@' {
            return true;
        }
        i += 1;
    }
    false
}

} // verus!
