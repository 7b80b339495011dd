//! Looking up a task.
use vstd::prelude::*;

use crate::db::error::DbError;
use crate::models::tasks::TaskFull;

verus! {

/// `Task not found`
pub open spec fn task_not_found_msg() -> Seq<char> {
    seq!['T', 'a', 's', 'k', ' ', 'n', 'o', 't', ' ', 'f', 'o', 'u', 'n', 'd']
}

/// The task a lookup found, or `NotFound("Task not found")` where the caller may not
/// see it or it does not exist.
pub fn found_task(task: Option<TaskFull>) -> (r: Result<TaskFull, DbError>)
    ensures
        task matches Some(t) ==> (r matches Ok(x) && x == t),
        task is None ==> (r matches Err(DbError::NotFound(m)) && m@ == task_not_found_msg()),
{
    match task {
        Some(t) => Ok(t),
        None => {
            proof {
                reveal_strlit("Task not found");
            }
            Err(DbError::NotFound(String::from_str("Task not found")))
        },
    }
}

} // verus!
