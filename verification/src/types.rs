//! Calendar data as the data layer reads it. Instants are microseconds since the epoch.
use vstd::prelude::*;

verus! {

/// A calendar event row: a single event, the master of a recurring series, or an
/// exception (a modified occurrence, marked by `recurrence_id`).
pub struct EventDB {
    pub id: String,
    pub uid: String,
    pub summary: String,
    pub location: Option<String>,
    pub dtstart_time: i64,
    pub dtend_time: Option<i64>,
    pub rdate: Option<Vec<String>>,
    pub exdate: Option<Vec<String>>,
    pub recurrence_id: Option<i64>,
    pub rrule: Option<String>,
}

/// An event as shown in a calendar view.
pub struct EventSmall {
    pub db_data: EventDB,
    pub is_recurring: bool,
    pub is_exception: bool,
}

/// A stored event with the fields a series split reads.
pub struct EventFull {
    pub id: String,
    pub uid: String,
    pub calendar_id: String,
    pub summary: String,
    pub description: Option<String>,
    pub location: Option<String>,
    pub dtstart_time: i64,
    pub dtend_time: Option<i64>,
    pub rrule: Option<String>,
}

/// The changes a user asks for on an event; absent fields stay as they are.
pub struct EventUpdate {
    pub summary: Option<String>,
    pub description: Option<String>,
    pub location: Option<String>,
    pub dtstart_time: Option<i64>,
    pub dtend_time: Option<i64>,
    pub dtstart_tz: Option<String>,
    pub dtend_tz: Option<String>,
    /// The start date of an all-day event, `YYYY-MM-DD`.
    pub dtstart_date: Option<String>,
    /// The end date of an all-day event, `YYYY-MM-DD`.
    pub dtend_date: Option<String>,
    pub rrule: Option<String>,
    pub attendee: Option<String>,
}

/// The view of an optional list of strings.
pub open spec fn opt_strings_view(o: Option<Vec<String>>) -> Option<Seq<String>> {
    match o {
        Some(v) => Some(v@),
        None => None,
    }
}

/// The view of an optional string.
pub open spec fn opt_string_view(o: Option<String>) -> Option<Seq<char>> {
    match o {
        Some(s) => Some(s@),
        None => None,
    }
}

} // verus!
