//! Request and response models.
pub mod cards;
pub mod cards_decks;
pub mod datetime_serialization;
pub mod files;
pub mod lessons;
pub mod meta;
pub mod notifications;
pub mod preferences;
pub mod profiles;
pub mod s3;
pub mod students;
pub mod tasks;
pub mod tracking;
pub mod users;

use vstd::prelude::*;

use crate::models::cards_decks::{DeckSmall, LearnDataDashboard};
use crate::models::lessons::LessonSmall;
use crate::models::preferences::UserPreferences;
use crate::models::profiles::ProfileWithTS;
use crate::models::students::Student;
use crate::models::tasks::TaskSmall;
use crate::models::tracking::ActivityLog;
use crate::models::users::User;

verus! {

/// One page of a list, with the total number of rows and the paging used.
pub struct PaginatedResponse<T> {
    pub data: Vec<T>,
    pub total: i64,
    pub page: i64,
    pub per_page: i64,
}

/// A list with the number of its unseen items.
pub struct BadgeWrapper<T> {
    pub data: Vec<T>,
    pub count: i64,
}

/// One page of tasks.
pub struct PaginatedTasks {
    pub data: Vec<TaskSmall>,
    pub total: i64,
    pub page: i64,
    pub per_page: i64,
}

/// One page of lessons.
pub struct PaginatedLessons {
    pub data: Vec<LessonSmall>,
    pub total: i64,
    pub page: i64,
    pub per_page: i64,
}

/// Tasks with the number of unseen ones.
pub struct BadgeWrapperTasks {
    pub data: Vec<TaskSmall>,
    pub count: i64,
}

/// Lessons with the number of unseen ones.
pub struct BadgeWrapperLessons {
    pub data: Vec<LessonSmall>,
    pub count: i64,
}

/// Decks with the number of unseen ones.
pub struct BadgeWrapperDecks {
    pub data: Vec<DeckSmall>,
    pub count: i64,
}

impl From<PaginatedResponse<TaskSmall>> for PaginatedTasks {
    fn from(paginated: PaginatedResponse<TaskSmall>) -> (r: Self) {
        Self {
            data: paginated.data,
            total: paginated.total,
            page: paginated.page,
            per_page: paginated.per_page,
        }
    }
}

impl vstd::std_specs::convert::FromSpecImpl<PaginatedResponse<TaskSmall>> for PaginatedTasks {
    open spec fn obeys_from_spec() -> bool {
        true
    }

    open spec fn from_spec(v: PaginatedResponse<TaskSmall>) -> Self {
        PaginatedTasks { data: v.data, total: v.total, page: v.page, per_page: v.per_page }
    }
}

impl From<PaginatedResponse<LessonSmall>> for PaginatedLessons {
    fn from(paginated: PaginatedResponse<LessonSmall>) -> (r: Self) {
        Self {
            data: paginated.data,
            total: paginated.total,
            page: paginated.page,
            per_page: paginated.per_page,
        }
    }
}

impl vstd::std_specs::convert::FromSpecImpl<PaginatedResponse<LessonSmall>> for PaginatedLessons {
    open spec fn obeys_from_spec() -> bool {
        true
    }

    open spec fn from_spec(v: PaginatedResponse<LessonSmall>) -> Self {
        PaginatedLessons { data: v.data, total: v.total, page: v.page, per_page: v.per_page }
    }
}

/// The identifier of a created row.
pub struct CreationId {
    pub id: String,
}

/// Everything the dashboard shows.
pub struct DashboardData {
    pub students: Vec<Student>,
    pub lessons: BadgeWrapperLessons,
    pub tasks: BadgeWrapperTasks,
    pub decks: BadgeWrapperDecks,
    pub user: User,
    pub profile: ProfileWithTS,
    pub activity: Vec<ActivityLog>,
    pub learn: LearnDataDashboard,
    pub preferences: UserPreferences,
}

} // verus!
