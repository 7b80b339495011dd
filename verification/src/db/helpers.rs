//! Helpers of the queries: the first row of a result, and search patterns.
use vstd::prelude::*;

use crate::db::error::DbError;
use crate::models::users::User;

verus! {

/// A row type that can be taken out of the rows a query returned.
pub trait FromQuery: Sized {
    /// The first row, or `TransactionFailed` where the query returned none.
    fn from_query_result(result: Vec<Self>) -> (r: Result<Self, DbError>)
        ensures
            result.len() > 0 ==> (r matches Ok(x) && x == result[0]),
            result.len() == 0 ==> (r matches Err(DbError::TransactionFailed)),
    {
        let mut result = result;
        if result.len() == 0 {
            Err(DbError::TransactionFailed)
        } else {
            Ok(result.remove(0))
        }
    }
}

impl FromQuery for User {}

/// The `ILIKE` pattern that finds a search text anywhere in a value: `%text%`. The text
/// is taken as it is; `%` and `_` in it keep their pattern meaning.
pub fn search_pattern(search: &str) -> (r: String)
    ensures
        r@ == seq!['%'] + search@ + seq!['%'],
{
    proof {
        reveal_strlit("%");
    }
    let mut p = String::from_str("%");
    p.append(search);
    p.append("%");
    p
}

} // verus!
