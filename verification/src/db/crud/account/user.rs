//! The errors of account operations: a unique username or e-mail that is already taken
//! on a write, and the driver's error kept as it is on a lookup.
use vstd::prelude::*;

use crate::db::error::{sqlx_violated_constraint, violated_constraint, DbError};
use crate::types::opt_string_view;

verus! {

/// `user_username_key`, the unique constraint on usernames.
pub open spec fn username_constraint() -> Seq<char> {
    seq!['u', 's', 'e', 'r', '_', 'u', 's', 'e', 'r', 'n', 'a', 'm', 'e', '_', 'k', 'e', 'y']
}

/// `user_email_key`, the unique constraint on e-mail addresses.
pub open spec fn email_constraint() -> Seq<char> {
    seq!['u', 's', 'e', 'r', '_', 'e', 'm', 'a', 'i', 'l', '_', 'k', 'e', 'y']
}

/// `Username already taken`
pub open spec fn username_taken_msg() -> Seq<char> {
    seq![
        'U', 's', 'e', 'r', 'n', 'a', 'm', 'e', ' ', 'a', 'l', 'r', 'e', 'a', 'd', 'y', ' ', 't',
        'a', 'k', 'e', 'n',
    ]
}

/// `Email already taken`
pub open spec fn email_taken_msg() -> Seq<char> {
    seq!['E', 'm', 'a', 'i', 'l', ' ', 'a', 'l', 'r', 'e', 'a', 'd', 'y', ' ', 't', 'a', 'k', 'e', 'n']
}

/// `Email already registered`
pub open spec fn email_registered_msg() -> Seq<char> {
    seq![
        'E', 'm', 'a', 'i', 'l', ' ', 'a', 'l', 'r', 'e', 'a', 'd', 'y', ' ', 'r', 'e', 'g', 'i',
        's', 't', 'e', 'r', 'e', 'd',
    ]
}

/// The error of an account write from the driver error and the constraint it violated:
/// a taken username or e-mail becomes `AlreadyExists` with `username_msg` or
/// `email_msg`, anything else stays a database error.
fn classify_conflict(
    error: sqlx::Error,
    constraint: Option<String>,
    username_msg: &str,
    email_msg: &str,
) -> (r: DbError)
    ensures
        opt_string_view(constraint) == Some(username_constraint()) ==> (r matches DbError::AlreadyExists(m) && m@ == username_msg@),
        opt_string_view(constraint) == Some(email_constraint()) ==> (r matches DbError::AlreadyExists(m) && m@ == email_msg@),
        opt_string_view(constraint) != Some(username_constraint()) && opt_string_view(constraint) != Some(email_constraint())
            ==> (r matches DbError::Database(x) && x == error),
{
    proof {
        reveal_strlit("user_username_key");
        reveal_strlit("user_email_key");
        assert("user_username_key"@ =~= username_constraint());
        assert("user_email_key"@ =~= email_constraint());
    }
    if let Some(c) = &constraint {
        if crate::text::str_eq(c.as_str(), "user_username_key") {
            return DbError::AlreadyExists(String::from_str(username_msg));
        }
        if crate::text::str_eq(c.as_str(), "user_email_key") {
            return DbError::AlreadyExists(String::from_str(email_msg));
        }
    }
    DbError::Database(error)
}

/// The error of an account update, from the driver error and the constraint it
/// violated: `Username already taken`, `Email already taken`, or the database error.
pub fn classify_update_error(error: sqlx::Error, constraint: Option<String>) -> (r: DbError)
    ensures
        opt_string_view(constraint) == Some(username_constraint()) ==> (r matches DbError::AlreadyExists(m) && m@ == username_taken_msg()),
        opt_string_view(constraint) == Some(email_constraint()) ==> (r matches DbError::AlreadyExists(m) && m@ == email_taken_msg()),
        opt_string_view(constraint) != Some(username_constraint()) && opt_string_view(constraint) != Some(email_constraint())
            ==> (r matches DbError::Database(x) && x == error),
{
    proof {
        reveal_strlit("Username already taken");
        reveal_strlit("Email already taken");
        assert("Username already taken"@ =~= username_taken_msg());
        assert("Email already taken"@ =~= email_taken_msg());
    }
    classify_conflict(error, constraint, "Username already taken", "Email already taken")
}

/// The error of a sign-up, from the driver error and the constraint it violated:
/// `Username already taken`, `Email already registered`, or the database error.
pub fn classify_signup_error(error: sqlx::Error, constraint: Option<String>) -> (r: DbError)
    ensures
        opt_string_view(constraint) == Some(username_constraint()) ==> (r matches DbError::AlreadyExists(m) && m@ == username_taken_msg()),
        opt_string_view(constraint) == Some(email_constraint()) ==> (r matches DbError::AlreadyExists(m) && m@ == email_registered_msg()),
        opt_string_view(constraint) != Some(username_constraint()) && opt_string_view(constraint) != Some(email_constraint())
            ==> (r matches DbError::Database(x) && x == error),
{
    proof {
        reveal_strlit("Username already taken");
        reveal_strlit("Email already registered");
        assert("Username already taken"@ =~= username_taken_msg());
        assert("Email already registered"@ =~= email_registered_msg());
    }
    classify_conflict(error, constraint, "Username already taken", "Email already registered")
}

/// The error of a failed account update: a violated unique constraint on the username
/// or e-mail is reported as taken, any other failure as a database error. Which
/// constraint a driver error names is read from the driver.
pub fn update_error(error: sqlx::Error) -> (r: DbError)
    ensures
        violated_constraint(error) == Some(username_constraint()) ==> (r matches DbError::AlreadyExists(m) && m@ == username_taken_msg()),
        violated_constraint(error) == Some(email_constraint()) ==> (r matches DbError::AlreadyExists(m) && m@ == email_taken_msg()),
        violated_constraint(error) != Some(username_constraint()) && violated_constraint(error) != Some(email_constraint())
            ==> (r matches DbError::Database(x) && x == error),
{
    let constraint = sqlx_violated_constraint(&error);
    classify_update_error(error, constraint)
}

/// The error of a failed sign-up: a violated unique constraint on the username or
/// e-mail is reported as taken (`Username already taken`, `Email already registered`),
/// any other failure as a database error. Which constraint a driver error names is
/// read from the driver.
pub fn signup_error(error: sqlx::Error) -> (r: DbError)
    ensures
        violated_constraint(error) == Some(username_constraint()) ==> (r matches DbError::AlreadyExists(m) && m@ == username_taken_msg()),
        violated_constraint(error) == Some(email_constraint()) ==> (r matches DbError::AlreadyExists(m) && m@ == email_registered_msg()),
        violated_constraint(error) != Some(username_constraint()) && violated_constraint(error) != Some(email_constraint())
            ==> (r matches DbError::Database(x) && x == error),
{
    let constraint = sqlx_violated_constraint(&error);
    classify_signup_error(error, constraint)
}

/// The error of looking an account up by its id: the driver's error as it is, so a
/// missing account is `Database(RowNotFound)` rather than `NotFound`.
pub fn lookup_error(error: sqlx::Error) -> (r: DbError)
    ensures
        r matches DbError::Database(x) && x == error,
{
    DbError::Database(error)
}

} // verus!
