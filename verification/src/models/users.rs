//! Account payloads and token responses.
use vstd::prelude::*;

use crate::datetime::{instant_in_range, utc_now};
use crate::validation::{
    email_is_valid, failed_fields, finish_validation, length_ok, note_failure, validate_email,
    validate_length, ValidationErrors,
};

verus! {

/// A sign-up request.
pub struct SignUpPayload {
    pub name: String,
    pub email: String,
    pub pass: String,
    pub username: String,
    pub role: String,
}

/// A partial update of an account; absent fields stay as they are.
pub struct UserUpdate {
    pub name: Option<String>,
    pub username: Option<String>,
    pub email: Option<String>,
    pub pass: Option<String>,
    pub role: Option<String>,
}

/// An account. The password hash is never sent to clients.
pub struct User {
    pub id: String,
    pub name: String,
    pub username: String,
    pub email: String,
    pub pass: String,
    pub role: String,
}

/// A log-in request.
pub struct AuthPayload {
    pub username: String,
    pub pass: String,
}

/// A token and the Unix time at which it expires.
pub struct TokenWithExpiry {
    pub token: String,
    pub expires_at: u64,
}

/// The answer to a token refresh.
pub struct RefreshTokenResponse {
    pub access_token: TokenWithExpiry,
}

/// A token refresh request.
pub struct RefreshTokenPayload {
    pub refresh_token: String,
}

/// An access token with its refresh token.
pub struct TokenPair {
    pub access_token: TokenWithExpiry,
    pub refresh_token: TokenWithExpiry,
}

impl TokenPair {
    /// Pairs an access token with a refresh token.
    pub fn new(access_token: TokenWithExpiry, refresh_token: TokenWithExpiry) -> (r: Self)
        ensures
            r.access_token.token@ == access_token.token@,
            r.access_token.expires_at == access_token.expires_at,
            r.refresh_token.token@ == refresh_token.token@,
            r.refresh_token.expires_at == refresh_token.expires_at,
    {
        Self {
            access_token: TokenWithExpiry {
                token: access_token.token,
                expires_at: access_token.expires_at,
            },
            refresh_token: TokenWithExpiry {
                token: refresh_token.token,
                expires_at: refresh_token.expires_at,
            },
        }
    }
}

/// The data of a teacher's invitation, stamped with the time it was made
/// (microseconds since the epoch).
pub struct InviteToken {
    pub teacher_id: String,
    pub created_at: i64,
}

impl InviteToken {
    /// An invitation from `teacher_id`, stamped with the current time.
    pub fn new(teacher_id: String) -> (r: Self)
        ensures
            r.teacher_id@ == teacher_id@,
            instant_in_range(r.created_at as int),
    {
        Self { teacher_id, created_at: utc_now() }
    }
}

/// A request to bind a student to the teacher who invited them.
pub struct BindPayload {
    pub student_id: String,
    pub invite_token: String,
}

/// Whether the invited user already has an account.
pub struct InviteQuery {
    pub is_registered: String,
}

/// The invitation a user follows.
pub struct InviterQuery {
    pub invite: String,
}

/// `name`
pub open spec fn name_field() -> Seq<char> {
    seq!['n', 'a', 'm', 'e']
}

/// `email`
pub open spec fn email_field() -> Seq<char> {
    seq!['e', 'm', 'a', 'i', 'l']
}

/// `pass`
pub open spec fn pass_field() -> Seq<char> {
    seq!['p', 'a', 's', 's']
}

/// `username`
pub open spec fn username_field() -> Seq<char> {
    seq!['u', 's', 'e', 'r', 'n', 'a', 'm', 'e']
}

/// The field named `name` when `ok` is false, nothing otherwise.
pub open spec fn failure_if(ok: bool, name: Seq<char>) -> Seq<Seq<char>> {
    if ok {
        Seq::empty()
    } else {
        seq![name]
    }
}

/// The fields of a sign-up that break its rules: a name of at least 3 characters, a
/// valid e-mail address, a password of at least 8 characters and a username of at
/// least 2.
pub open spec fn signup_failures(p: SignUpPayload) -> Seq<Seq<char>> {
    failure_if(length_ok(p.name@.len() as int, Some(3), None), name_field())
        + failure_if(email_is_valid(p.email@), email_field())
        + failure_if(length_ok(p.pass@.len() as int, Some(8), None), pass_field())
        + failure_if(length_ok(p.username@.len() as int, Some(2), None), username_field())
}

/// The fields of a log-in that break its rules: a username of 3 to 16 characters and a
/// password of 8 to 32.
pub open spec fn auth_failures(p: AuthPayload) -> Seq<Seq<char>> {
    failure_if(length_ok(p.username@.len() as int, Some(3), Some(16)), username_field())
        + failure_if(length_ok(p.pass@.len() as int, Some(8), Some(32)), pass_field())
}

/// A sign-up is accepted exactly when the name has at least 3 characters, the e-mail
/// address is valid, the password has at least 8 characters and the username at least 2.
pub proof fn lemma_signup_rules(p: SignUpPayload)
    ensures
        signup_failures(p).len() == 0 <==> (p.name@.len() >= 3 && email_is_valid(p.email@)
            && p.pass@.len() >= 8 && p.username@.len() >= 2),
        signup_failures(p).len() <= 4,
{
}

/// A log-in is accepted exactly when the username has 3 to 16 characters and the
/// password 8 to 32.
pub proof fn lemma_auth_rules(p: AuthPayload)
    ensures
        auth_failures(p).len() == 0 <==> (3 <= p.username@.len() <= 16 && 8 <= p.pass@.len() <= 32),
        auth_failures(p).len() <= 2,
{
}

impl SignUpPayload {
    /// Checks the sign-up rules; the error lists every field that breaks them.
    pub fn validate(&self) -> (r: Result<(), ValidationErrors>)
        ensures
            r is Ok <==> signup_failures(*self).len() == 0,
            r matches Err(e) ==> failed_fields(e) == signup_failures(*self),
    {
        proof {
            reveal_strlit("name");
            reveal_strlit("email");
            reveal_strlit("pass");
            reveal_strlit("username");
            assert("name"@ =~= name_field());
            assert("email"@ =~= email_field());
            assert("pass"@ =~= pass_field());
            assert("username"@ =~= username_field());
        }
        let mut fields: Vec<String> = Vec::new();
        assert(fields@.map_values(|f: String| f@) =~= Seq::<Seq<char>>::empty());
        note_failure(&mut fields, validate_length(&self.name, Some(3), None), "name");
        note_failure(&mut fields, validate_email(&self.email), "email");
        note_failure(&mut fields, validate_length(&self.pass, Some(8), None), "pass");
        note_failure(&mut fields, validate_length(&self.username, Some(2), None), "username");
        assert(fields@.map_values(|f: String| f@) =~= signup_failures(*self));
        finish_validation(fields)
    }
}

impl AuthPayload {
    /// Checks the log-in rules; the error lists every field that breaks them.
    pub fn validate(&self) -> (r: Result<(), ValidationErrors>)
        ensures
            r is Ok <==> auth_failures(*self).len() == 0,
            r matches Err(e) ==> failed_fields(e) == auth_failures(*self),
    {
        proof {
            reveal_strlit("pass");
            reveal_strlit("username");
            assert("pass"@ =~= pass_field());
            assert("username"@ =~= username_field());
        }
        let mut fields: Vec<String> = Vec::new();
        assert(fields@.map_values(|f: String| f@) =~= Seq::<Seq<char>>::empty());
        note_failure(&mut fields, validate_length(&self.username, Some(3), Some(16)), "username");
        note_failure(&mut fields, validate_length(&self.pass, Some(8), Some(32)), "pass");
        assert(fields@.map_values(|f: String| f@) =~= auth_failures(*self));
        finish_validation(fields)
    }
}

} // verus!
