//! Generic response wrappers.
use vstd::prelude::*;

use crate::models::cards_decks::{DeckSmall, LearnDataDashboard};
use crate::models::lessons::LessonSmall;
use crate::models::preferences::UserPreferences;
use crate::models::profiles::ProfileWithTS;
use crate::models::students::Student;
use crate::models::tasks::TaskSmall;
use crate::models::tracking::ActivityLog;
use crate::models::users::User;

verus! {

/// One page of a list, with the total number of rows and the paging used.
pub struct PaginatedResponse<T> {
    pub data: Vec<T>,
    pub total: i64,
    pub page: i64,
    pub per_page: i64,
}

/// A list with the number of its unseen items.
pub struct BadgeWrapper<T> {
    pub data: Vec<T>,
    pub count: i64,
}

/// The identifier of a created row.
pub struct CreationId {
    pub id: String,
}

/// Everything the dashboard shows.
pub struct DashboardData {
    pub students: Vec<Student>,
    pub lessons: BadgeWrapper<LessonSmall>,
    pub tasks: BadgeWrapper<TaskSmall>,
    pub decks: BadgeWrapper<DeckSmall>,
    pub user: User,
    pub profile: ProfileWithTS,
    pub activity: Vec<ActivityLog>,
    pub learn: LearnDataDashboard,
    pub preferences: UserPreferences,
}

} // verus!
