//! Teacher-student relations.
use vstd::prelude::*;

use crate::models::cards_decks::DeckSmall;
use crate::models::lessons::LessonSmall;
use crate::models::tasks::TaskSmall;

verus! {

/// The relation of a teacher and a student. `joined` is in microseconds since the epoch.
pub struct TeacherStudent {
    pub teacher_id: String,
    pub student_id: String,
    pub status: String,
    pub telegram_id: Option<String>,
    pub markdown: Option<String>,
    pub joined: i64,
}

/// A student as their teacher sees them.
pub struct Student {
    pub id: String,
    pub name: String,
    pub username: String,
    pub email: String,
    pub markdown: Option<String>,
    pub student_telegram_id: Option<String>,
}

/// A request to add a student.
pub struct AddStudentRequest {
    pub student_id: String,
}

/// A partial update of a student's notes; absent fields stay as they are.
pub struct UpdateStudentRequest {
    pub markdown: Option<String>,
    pub student_telegram_id: Option<String>,
}

/// A student with their latest decks, lessons and tasks.
pub struct CompositeStudent {
    pub student: Student,
    pub decks: Vec<DeckSmall>,
    pub lessons: Vec<LessonSmall>,
    pub tasks: Vec<TaskSmall>,
}

} // verus!
