//! User preferences.
use vstd::prelude::*;

verus! {

/// The preferences of a user.
pub struct UserPreferences {
    pub user_id: String,
    pub auto_subscribe: bool,
    pub email_notifications: bool,
    pub push_notifications: bool,
    pub theme: String,
    pub language: String,
}

/// A partial update of preferences; absent fields stay as they are.
pub struct UserPreferencesUpdate {
    pub auto_subscribe: Option<bool>,
    pub email_notifications: Option<bool>,
    pub push_notifications: Option<bool>,
    pub theme: Option<String>,
    pub language: Option<String>,
}

/// Preferences as sent to their owner.
pub struct UserPreferencesResponse {
    pub auto_subscribe: bool,
    pub email_notifications: bool,
    pub push_notifications: bool,
    pub theme: String,
    pub language: String,
}

} // verus!
