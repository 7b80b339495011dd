//! Lesson payloads and the pagination of lesson lists.
use vstd::prelude::*;

verus! {

/// The page size asked for, or 50, clamped into `[1, 100]`.
pub open spec fn page_size(per_page: Option<i64>) -> i64 {
    let v = match per_page {
        Some(v) => v,
        None => 50,
    };
    if v < 1 {
        1
    } else if v > 100 {
        100
    } else {
        v
    }
}

/// The page asked for, or 1, at least 1.
pub open spec fn page_number(page: Option<i64>) -> i64 {
    let v = match page {
        Some(v) => v,
        None => 1,
    };
    if v < 1 {
        1
    } else {
        v
    }
}

/// The number of rows before the requested page.
pub open spec fn page_offset(page: Option<i64>, per_page: Option<i64>) -> int {
    (page_number(page) - 1) * page_size(per_page)
}

/// Pages tile a list: the page size is between 1 and 100, the page at least 1, the
/// offset a non-negative multiple of the page size, and the next page starts where
/// this one ends.
pub proof fn lemma_pages_tile(page: Option<i64>, per_page: Option<i64>)
    ensures
        1 <= page_size(per_page) <= 100,
        page_number(page) >= 1,
        page_offset(page, per_page) >= 0,
        page_offset(page, per_page) % (page_size(per_page) as int) == 0,
        page_number(page) < i64::MAX ==> page_offset(Some((page_number(page) + 1) as i64), per_page)
            == page_offset(page, per_page) + page_size(per_page),
{
    let p = page_number(page) - 1;
    let l = page_size(per_page) as int;
    assert(p * l >= 0) by (nonlinear_arith)
        requires
            p >= 0,
            l >= 1,
    ;
    assert((p * l) % l == 0) by (nonlinear_arith)
        requires
            l >= 1,
    ;
    assert((p + 1) * l == p * l + l) by (nonlinear_arith);
}

/// The page size is the one asked for when it lies in `[1, 100]`, 50 when none is asked
/// for, and the nearer bound otherwise; the page is the one asked for when it is at
/// least 1, and 1 otherwise.
pub proof fn lemma_page_size_clamps(page: Option<i64>, per_page: Option<i64>)
    ensures
        per_page is None ==> page_size(per_page) == 50,
        per_page matches Some(v) ==> (1 <= v <= 100 ==> page_size(per_page) == v),
        per_page matches Some(v) ==> (v < 1 ==> page_size(per_page) == 1),
        per_page matches Some(v) ==> (v > 100 ==> page_size(per_page) == 100),
        page is None ==> page_number(page) == 1,
        page matches Some(v) ==> (v >= 1 ==> page_number(page) == v),
        page matches Some(v) ==> (v < 1 ==> page_number(page) == 1),
{
}

/// Paging and filtering of a lesson list.
pub struct PaginationParams {
    pub page: Option<i64>,
    pub per_page: Option<i64>,
    pub search: Option<String>,
    pub assignee: Option<String>,
}

impl PaginationParams {
    /// The page size: the requested one (50 by default) clamped into `[1, 100]`.
    pub fn limit(&self) -> (r: i64)
        ensures
            r == page_size(self.per_page),
    {
        let v = self.per_page.unwrap_or(50);
        if v < 1 {
            1
        } else if v > 100 {
            100
        } else {
            v
        }
    }

    /// The number of rows to skip: the rows of all earlier pages.
    pub fn offset(&self) -> (r: i64)
        requires
            page_offset(self.page, self.per_page) <= i64::MAX,
        ensures
            r == page_offset(self.page, self.per_page),
    {
        let page = self.page.unwrap_or(1);
        let page = if page < 1 { 1 } else { page };
        (page - 1) * self.limit()
    }

    /// The requested page (1 by default), at least 1.
    pub fn page(&self) -> (r: i64)
        ensures
            r == page_number(self.page),
    {
        let page = self.page.unwrap_or(1);
        if page < 1 {
            1
        } else {
            page
        }
    }
}

/// A lesson in a list. `created_at` is in microseconds since the epoch.
pub struct LessonSmall {
    pub id: String,
    pub title: String,
    pub topic: String,
    pub assignee_name: String,
    pub seen: Option<bool>,
    pub created_at: i64,
}

/// A lesson with all its fields. Instants are microseconds since the epoch.
pub struct LessonFull {
    pub id: String,
    pub title: String,
    pub topic: String,
    pub markdown: String,
    pub assignee: String,
    pub created_by: String,
    pub created_at: i64,
    pub updated_at: i64,
    pub assignee_name: String,
}

/// A student's note and bookmark on a lesson. Instants are microseconds since the epoch.
pub struct StudentNote {
    pub id: String,
    pub lesson_id: String,
    pub user_id: String,
    pub is_bookmarked: Option<bool>,
    pub notes: Option<String>,
    pub created_at: Option<i64>,
    pub updated_at: Option<i64>,
}

/// A new lesson.
pub struct LessonCreate {
    pub title: String,
    pub topic: String,
    pub markdown: String,
    pub assignee: Option<String>,
}

/// A partial update of a lesson; absent fields stay as they are.
pub struct LessonUpdate {
    pub id: Option<String>,
    pub title: Option<String>,
    pub topic: Option<String>,
    pub markdown: Option<String>,
    pub assignee: Option<String>,
    pub created_by: Option<String>,
}

/// A student's update of their note on a lesson.
pub struct StudentNoteUpdate {
    pub notes: Option<String>,
    pub is_bookmarked: Option<bool>,
}

/// The assignee of a new lesson: the one requested, or its creator.
pub fn lesson_assignee(user_id: &str, create: &LessonCreate) -> (r: String)
    ensures
        r@ == match create.assignee {
            Some(a) => a@,
            None => user_id@,
        },
{
    match &create.assignee {
        Some(a) => a.clone(),
        None => String::from_str(user_id),
    }
}

} // verus!
