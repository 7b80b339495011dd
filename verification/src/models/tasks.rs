//! Task payloads and the pagination of task lists. Instants are microseconds since
//! the epoch.
use vstd::prelude::*;

use crate::models::files::FileSmall;
use crate::models::lessons::{page_number, page_offset, page_size};
use crate::models::users::failure_if;
use crate::validation::{
    failed_fields, finish_validation, note_failure, range_ok, validate_range, ValidationErrors,
};

verus! {

/// Paging and filtering of a task list.
pub struct TaskPaginationParams {
    pub page: Option<i64>,
    pub per_page: Option<i64>,
    pub search: Option<String>,
    pub priority: Option<i32>,
    pub completed: Option<bool>,
    pub assignee: Option<String>,
}

impl TaskPaginationParams {
    /// The page size: the requested one (50 by default) clamped into `[1, 100]`.
    pub fn limit(&self) -> (r: i64)
        ensures
            r == page_size(self.per_page),
    {
        let v = self.per_page.unwrap_or(50);
        if v < 1 {
            1
        } else if v > 100 {
            100
        } else {
            v
        }
    }

    /// The number of rows to skip: the rows of all earlier pages.
    pub fn offset(&self) -> (r: i64)
        requires
            page_offset(self.page, self.per_page) <= i64::MAX,
        ensures
            r == page_offset(self.page, self.per_page),
    {
        let page = self.page.unwrap_or(1);
        let page = if page < 1 { 1 } else { page };
        (page - 1) * self.limit()
    }

    /// The requested page (1 by default), at least 1.
    pub fn page(&self) -> (r: i64)
        ensures
            r == page_number(self.page),
    {
        let page = self.page.unwrap_or(1);
        if page < 1 {
            1
        } else {
            page
        }
    }
}

/// A task with all its fields.
pub struct TaskFull {
    pub id: String,
    pub title: String,
    pub markdown: String,
    pub priority: i16,
    pub completed: bool,
    pub created_at: i64,
    pub updated_at: i64,
    pub due_date: Option<i64>,
    pub created_by: String,
    pub assignee: String,
    pub assignee_name: String,
}

/// `priority`
pub open spec fn priority_field() -> Seq<char> {
    seq!['p', 'r', 'i', 'o', 'r', 'i', 't', 'y']
}

/// The fields of a task that break its rules: a priority from 1 to 3.
pub open spec fn task_failures(t: TaskFull) -> Seq<Seq<char>> {
    failure_if(range_ok(t.priority as int, Some(1), Some(3)), priority_field())
}

/// A task is accepted exactly when its priority is 1, 2 or 3.
pub proof fn lemma_task_rules(t: TaskFull)
    ensures
        task_failures(t).len() == 0 <==> (1 <= t.priority <= 3),
{
}

impl TaskFull {
    /// Checks the task rules; the error lists every field that breaks them.
    pub fn validate(&self) -> (r: Result<(), ValidationErrors>)
        ensures
            r is Ok <==> task_failures(*self).len() == 0,
            r matches Err(e) ==> failed_fields(e) == task_failures(*self),
    {
        proof {
            reveal_strlit("priority");
            assert("priority"@ =~= priority_field());
        }
        let mut fields: Vec<String> = Vec::new();
        assert(fields@.map_values(|f: String| f@) =~= Seq::<Seq<char>>::empty());
        note_failure(&mut fields, validate_range(self.priority as i64, Some(1), Some(3)), "priority");
        assert(fields@.map_values(|f: String| f@) =~= task_failures(*self));
        finish_validation(fields)
    }
}

/// A task in a list.
pub struct TaskSmall {
    pub id: String,
    pub title: String,
    pub priority: i16,
    pub completed: bool,
    pub assignee_name: String,
    pub seen: Option<bool>,
    pub due_date: Option<i64>,
}

/// A new task.
pub struct TaskCreate {
    pub title: String,
    pub markdown: String,
    pub priority: Option<i16>,
    pub due_date: Option<i64>,
    pub assignee: Option<String>,
}

/// A partial update of a task; absent fields stay as they are.
pub struct TaskUpdate {
    pub title: Option<String>,
    pub markdown: Option<String>,
    pub priority: Option<i16>,
    pub completed: Option<bool>,
    pub due_date: Option<i64>,
    pub assignee: Option<String>,
}

/// A task with the files attached to it.
pub struct TaskWithFilesResponse {
    pub task: TaskFull,
    pub files: Vec<FileSmall>,
}

/// The files to attach to a task.
pub struct TaskFileBind {
    pub file_ids: Vec<String>,
}

} // verus!
