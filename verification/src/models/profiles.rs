//! User profiles.
use vstd::prelude::*;

verus! {

/// The profile of a user.
pub struct Profile {
    pub user_id: String,
    pub video_call_url: Option<String>,
    pub avatar_url: Option<String>,
    pub telegram_id: Option<String>,
}

/// A partial update of a profile; absent fields stay as they are.
pub struct ProfileUpdate {
    pub video_call_url: Option<String>,
    pub avatar_url: Option<String>,
    pub telegram_id: Option<String>,
}

/// A profile with the teacher's contact data where the user is a student.
pub struct ProfileWithTS {
    pub profile: Profile,
    pub teacher_data: Option<TeacherData>,
}

/// The video-call URL and Telegram id of a student's teacher.
pub struct TeacherData {
    pub teacher_video_call_url: Option<String>,
    pub teacher_telegram_id: Option<String>,
}

} // verus!
