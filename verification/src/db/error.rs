//! The error type of the data layer.
use vstd::prelude::*;

use crate::types::opt_string_view;

verus! {

#[verifier::external_type_specification]
#[verifier::external_body]
pub struct ExSqlxError(sqlx::Error);

/// What a data-layer operation can fail with.
pub enum DbError {
    /// A failure reported by the database driver.
    Database(sqlx::Error),
    /// The addressed row does not exist (or is not visible to the caller).
    NotFound(String),
    /// A transaction could not be completed.
    TransactionFailed,
    /// A unique value is already taken.
    AlreadyExists(String),
    /// The event is not part of a recurring series.
    NotRecurring,
    /// A recurrence identifier could not be interpreted.
    InvalidRecurrenceId,
    /// A recurrence rule could not be interpreted.
    InvalidRRule(String),
    /// A stored value could not be parsed.
    ParseError(String),
}

/// Whether a driver error is `sqlx::Error::RowNotFound`, the error of a query that
/// returned no row where one was expected.
pub uninterp spec fn row_not_found(e: sqlx::Error) -> bool;

/// Whether the driver error is `sqlx::Error::RowNotFound`, by matching on the variant.
/// The contract names the result.
#[verifier::external_body]
fn sqlx_is_row_not_found(e: &sqlx::Error) -> (r: bool)
    ensures
        r == row_not_found(*e),
{
    match e {
        sqlx::Error::RowNotFound => true,
        _ => false,
    }
}

/// The name of the constraint that a driver error reports as violated: what
/// `DatabaseError::constraint` gives for an error returned by the database, none for
/// any other driver error.
pub uninterp spec fn violated_constraint(e: sqlx::Error) -> Option<Seq<char>>;

/// The name of the violated constraint when the driver error is an error returned
/// by the database, as `DatabaseError::constraint` reports it. The contract names the
/// result; it is read from the error alone.
#[verifier::external_body]
pub(crate) fn sqlx_violated_constraint(e: &sqlx::Error) -> (r: Option<String>)
    ensures
        opt_string_view(r) == violated_constraint(*e),
{
    match e {
        sqlx::Error::Database(dbe) => dbe.constraint().map(|c| c.to_string()),
        _ => None,
    }
}

/// The message given to a missing row.
pub open spec fn resource_not_found_msg() -> Seq<char> {
    seq!['R', 'e', 's', 'o', 'u', 'r', 'c', 'e', ' ', 'n', 'o', 't', ' ', 'f', 'o', 'u', 'n', 'd']
}

impl DbError {
    /// Classifies a driver error whose kind is already known: a missing row becomes
    /// `NotFound("Resource not found")`, anything else is kept as `Database`.
    pub fn from_sqlx_kind(error: sqlx::Error, row_not_found: bool) -> (r: DbError)
        ensures
            row_not_found ==> (r matches DbError::NotFound(m) && m@ == resource_not_found_msg()),
            !row_not_found ==> (r matches DbError::Database(x) && x == error),
    {
        if row_not_found {
            proof {
                reveal_strlit("Resource not found");
            }
            DbError::NotFound(String::from_str("Resource not found"))
        } else {
            DbError::Database(error)
        }
    }

    /// Converts a driver error into the data-layer error: a missing row becomes
    /// `NotFound("Resource not found")`, any other driver error is kept as `Database`.
    pub fn from_sqlx(error: sqlx::Error) -> (r: DbError)
        ensures
            row_not_found(error) ==> (r matches DbError::NotFound(m) && m@ == resource_not_found_msg()),
            !row_not_found(error) ==> (r matches DbError::Database(x) && x == error),
    {
        let nf = sqlx_is_row_not_found(&error);
        DbError::from_sqlx_kind(error, nf)
    }
}

} // verus!
