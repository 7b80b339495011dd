//! Ownership checks and paths of file operations.
use vstd::prelude::*;

use crate::db::error::DbError;
use crate::models::files::File;

verus! {

/// `File not found`
pub open spec fn file_not_found_msg() -> Seq<char> {
    seq!['F', 'i', 'l', 'e', ' ', 'n', 'o', 't', ' ', 'f', 'o', 'u', 'n', 'd']
}

/// `File not found or unauthorized`
pub open spec fn file_not_found_or_unauthorized_msg() -> Seq<char> {
    file_not_found_msg() + seq![
        ' ', 'o', 'r', ' ', 'u', 'n', 'a', 'u', 't', 'h', 'o', 'r', 'i', 'z', 'e', 'd',
    ]
}

/// The outcome of a file-existence check: a file the caller owns is fine, anything
/// else is `NotFound("File not found")`.
pub fn file_exists_result(found: bool) -> (r: Result<(), DbError>)
    ensures
        found ==> r is Ok,
        !found ==> (r matches Err(DbError::NotFound(m)) && m@ == file_not_found_msg()),
{
    if !found {
        proof {
            reveal_strlit("File not found");
        }
        return Err(DbError::NotFound(String::from_str("File not found")));
    }
    Ok(())
}

/// The file a lookup found, or `NotFound("File not found")` where the caller does not
/// own it or it does not exist.
pub fn found_file(file: Option<File>) -> (r: Result<File, DbError>)
    ensures
        file matches Some(f) ==> (r matches Ok(x) && x == f),
        file is None ==> (r matches Err(DbError::NotFound(m)) && m@ == file_not_found_msg()),
{
    match file {
        Some(f) => Ok(f),
        None => {
            proof {
                reveal_strlit("File not found");
            }
            Err(DbError::NotFound(String::from_str("File not found")))
        },
    }
}

/// The path recorded for a new upload: `/` followed by the file's name.
pub fn upload_path(file_name: &str) -> (r: String)
    ensures
        r@ == seq!['/'] + file_name@,
{
    proof {
        reveal_strlit("/");
    }
    let mut p = String::from_str("/");
    p.append(file_name);
    p
}

/// The outcome of marking an upload complete: it must have changed a row.
pub fn upload_complete_result(rows_affected: u64) -> (r: Result<(), DbError>)
    ensures
        rows_affected > 0 ==> r is Ok,
        rows_affected == 0 ==> (r matches Err(DbError::NotFound(m)) && m@ == file_not_found_or_unauthorized_msg()),
{
    if rows_affected == 0 {
        proof {
            reveal_strlit("File not found or unauthorized");
            assert("File not found or unauthorized"@ =~= file_not_found_or_unauthorized_msg());
        }
        return Err(DbError::NotFound(String::from_str("File not found or unauthorized")));
    }
    Ok(())
}

} // verus!
