use std::collections::HashSet;

use ogonek::db::crud::calendar::event::delete::{delete_action, DeleteAction, DeleteScope};
use ogonek::db::crud::calendar::event::update::{edit_action, EditAction, EditScope};
use ogonek::db::crud::calendar::event::read::{
    expand_events, expand_window, parse_date_flexible, parse_exdates, parse_rdates_in_window, resolve_date,
};
use ogonek::db::crud::calendar::event::update::{
    attendee_change, plan_this_and_future, remove_until_from_rrule, truncate_rrule, until_before,
    AttendeeChange,
};
use ogonek::db::error::DbError;
use ogonek::types::{EventDB, EventFull, EventSmall, EventUpdate};

const DAY: i64 = 86_400_000_000;
const HOUR: i64 = 3_600_000_000;
// 2024-11-11T00:00:00Z
const NOV_11: i64 = 1_731_283_200_000_000;

fn parse_err(r: Result<i64, DbError>) -> String {
    match r {
        Err(DbError::ParseError(m)) => m,
        Ok(t) => panic!("parsed to {}", t),
        Err(_) => panic!("other error"),
    }
}

#[test]
fn parse_date_flexible_iso_date() {
    assert_eq!(parse_date_flexible("2024-11-11").ok(), Some(NOV_11));
}

#[test]
fn parse_date_flexible_rfc3339() {
    assert_eq!(parse_date_flexible("2024-11-11T10:00:00Z").ok(), Some(NOV_11 + 10 * HOUR));
    assert_eq!(parse_date_flexible("2024-11-11T12:00:00+02:00").ok(), Some(NOV_11 + 10 * HOUR));
}

#[test]
fn parse_date_flexible_compact_date() {
    assert_eq!(parse_date_flexible("20241111").ok(), Some(NOV_11));
}

#[test]
fn parse_date_flexible_rejects_unknown_formats() {
    assert_eq!(parse_err(parse_date_flexible("11/11/2024")), "Unsupported date format: 11/11/2024");
    assert_eq!(parse_err(parse_date_flexible("")), "Unsupported date format: ");
}

#[test]
fn parse_date_flexible_ical_datetime() {
    // The iCalendar UTC form is read as a date-time taken in UTC.
    assert_eq!(parse_date_flexible("20241111T100000Z").ok(), Some(NOV_11 + 10 * HOUR));
    assert_eq!(
        parse_err(parse_date_flexible("20241111T100000")),
        "Unsupported date format: 20241111T100000"
    );
}

#[test]
fn resolve_date_takes_the_first_success() {
    assert_eq!(resolve_date("x", Some(1), Some(2), Some(3), Some(4)).ok(), Some(1));
    assert_eq!(resolve_date("x", None, Some(2), Some(3), Some(4)).ok(), Some(2));
    assert_eq!(resolve_date("x", None, None, Some(3), Some(4)).ok(), Some(3));
    assert_eq!(resolve_date("x", None, None, None, Some(4)).ok(), Some(4));
    assert_eq!(parse_err(resolve_date("x", None, None, None, None)), "Unsupported date format: x");
}

#[test]
fn parse_exdates_trims_and_skips_empty() {
    let list = Some(vec![" 2024-11-11 ".to_string(), "   ".to_string(), "20241112".to_string()]);
    assert_eq!(parse_exdates(&list).ok(), Some(HashSet::from([NOV_11, NOV_11 + DAY])));
    assert_eq!(parse_exdates(&None).ok(), Some(HashSet::new()));
    // The same instant written twice is excluded once.
    let twice = Some(vec!["2024-11-11".to_string(), "2024-11-11T00:00:00Z".to_string()]);
    assert_eq!(parse_exdates(&twice).ok(), Some(HashSet::from([NOV_11])));
}

#[test]
fn parse_exdates_reports_the_first_bad_entry() {
    let list = Some(vec!["2024-11-11".to_string(), " nope ".to_string(), "bad".to_string()]);
    match parse_exdates(&list) {
        Err(DbError::ParseError(m)) => assert_eq!(m, "Unsupported date format: nope"),
        _ => panic!("expected a parse error"),
    }
}

#[test]
fn parse_rdates_keeps_the_window() {
    let list = Some(vec![
        "2024-11-10".to_string(),
        "2024-11-11".to_string(),
        "2024-11-13".to_string(),
    ]);
    let got = parse_rdates_in_window(&list, NOV_11, NOV_11 + DAY).ok();
    assert_eq!(got, Some(vec![NOV_11]));
}

fn event(id: &str, uid: &str, start: i64, end: Option<i64>) -> EventDB {
    EventDB {
        id: id.to_string(),
        uid: uid.to_string(),
        summary: format!("summary {}", id),
        location: None,
        dtstart_time: start,
        dtend_time: end,
        rdate: None,
        exdate: None,
        recurrence_id: None,
        rrule: None,
    }
}

fn starts(v: &[EventSmall]) -> Vec<i64> {
    v.iter().map(|e| e.db_data.dtstart_time).collect()
}

#[test]
fn expand_single_event() {
    let events = vec![event("a", "ua", NOV_11, Some(NOV_11 + HOUR))];
    let out = expand_events(&events, &vec![None], NOV_11, NOV_11 + 7 * DAY, "_").ok().unwrap();
    assert_eq!(out.len(), 1);
    assert_eq!(out[0].db_data.id, "a");
    assert!(!out[0].is_recurring && !out[0].is_exception);
    assert_eq!(out[0].db_data.dtend_time, Some(NOV_11 + HOUR));
}

#[test]
fn expand_series_with_rdate_exdate_and_exception() {
    let mut master = event("m", "series", NOV_11, Some(NOV_11 + HOUR));
    master.rrule = Some("FREQ=DAILY".to_string());
    master.rdate = Some(vec!["2024-11-20".to_string(), "2024-11-30".to_string()]);
    master.exdate = Some(vec!["2024-11-12".to_string()]);
    let mut exception = event("x", "series", NOV_11 + 2 * DAY + 5 * HOUR, None);
    exception.recurrence_id = Some(NOV_11 + 2 * DAY);
    let events = vec![master, exception];
    let generated = vec![NOV_11, NOV_11 + DAY, NOV_11 + 2 * DAY, NOV_11 + 3 * DAY, NOV_11 + DAY];
    let out = expand_events(&events, &vec![Some(generated), None], NOV_11, NOV_11 + 10 * DAY, "_")
        .ok()
        .unwrap();
    // Nov 11 and 14 from the rule, Nov 20 from RDATE (Nov 30 is outside the window);
    // Nov 12 is excluded, Nov 13 is replaced by the exception, repeats are shown once.
    assert_eq!(starts(&out), vec![NOV_11, NOV_11 + 3 * DAY, NOV_11 + 9 * DAY, NOV_11 + 2 * DAY + 5 * HOUR]);
    assert_eq!(out[0].db_data.id, format!("m_{}", NOV_11 / 1_000_000));
    assert_eq!(out[0].db_data.id, "m_1731283200");
    assert_eq!(out[1].db_data.dtend_time, Some(NOV_11 + 3 * DAY + HOUR));
    assert!(out[0].is_recurring && !out[0].is_exception);
    // A virtual instance carries the master's RDATE list as its EXDATE list too.
    assert_eq!(out[0].db_data.exdate, Some(vec!["2024-11-20".to_string(), "2024-11-30".to_string()]));
    assert_eq!(out[3].db_data.id, "x");
    assert!(out[3].is_exception && out[3].is_recurring);
    assert_eq!(out[3].db_data.recurrence_id, Some(NOV_11 + 2 * DAY));
}

#[test]
fn expand_drops_exceptions_outside_the_window() {
    let mut exception = event("x", "series", NOV_11 - DAY, None);
    exception.recurrence_id = Some(NOV_11 - DAY);
    let out = expand_events(&vec![exception], &vec![None], NOV_11, NOV_11 + DAY, "_").ok().unwrap();
    assert!(out.is_empty());
}

#[test]
fn expand_reports_bad_rdate() {
    let mut master = event("m", "series", NOV_11, None);
    master.rdate = Some(vec!["someday".to_string()]);
    match expand_events(&vec![master], &vec![Some(vec![])], NOV_11, NOV_11 + DAY, "_") {
        Err(DbError::ParseError(m)) => assert_eq!(m, "Unsupported date format: someday"),
        _ => panic!("expected a parse error"),
    }
}

#[test]
fn expand_negative_timestamp_uses_floor_seconds() {
    let master = event("m", "s", -1, None);
    let out = expand_events(&vec![master], &vec![Some(vec![-1])], -DAY, DAY, "@").ok().unwrap();
    assert_eq!(out[0].db_data.id, "m@-1");
}

#[test]
fn truncate_rrule_replaces_existing_until() {
    assert_eq!(
        truncate_rrule("FREQ=DAILY;UNTIL=20250101T000000Z;COUNT=3", "20241111T095959Z"),
        "FREQ=DAILY;UNTIL=20241111T095959Z;COUNT=3"
    );
    assert_eq!(truncate_rrule("UNTIL=X", "Y"), "UNTIL=Y");
}

#[test]
fn truncate_rrule_appends_until() {
    assert_eq!(truncate_rrule("FREQ=WEEKLY", "20241111T095959Z"), "FREQ=WEEKLY;UNTIL=20241111T095959Z");
}

#[test]
fn remove_until_drops_until_parts() {
    assert_eq!(remove_until_from_rrule("FREQ=DAILY;UNTIL=20250101T000000Z;COUNT=3"), "FREQ=DAILY;COUNT=3");
    assert_eq!(remove_until_from_rrule("UNTIL=1;FREQ=DAILY"), "FREQ=DAILY");
    assert_eq!(remove_until_from_rrule("FREQ=DAILY"), "FREQ=DAILY");
    assert_eq!(remove_until_from_rrule("UNTIL=1"), "");
}

#[test]
fn truncation_keeps_the_pattern() {
    let rule = "FREQ=DAILY;UNTIL=20250101T000000Z;INTERVAL=2";
    let truncated = truncate_rrule(rule, "20241111T095959Z");
    assert_eq!(remove_until_from_rrule(&truncated), remove_until_from_rrule(rule));
}

#[test]
fn until_before_is_one_second_earlier() {
    assert_eq!(until_before(NOV_11 + 10 * HOUR), "20241111T095959Z");
}

fn master(rrule: Option<&str>) -> EventFull {
    EventFull {
        id: "m".to_string(),
        uid: "u".to_string(),
        calendar_id: "c".to_string(),
        summary: "Lesson".to_string(),
        description: None,
        location: Some("room".to_string()),
        dtstart_time: NOV_11,
        dtend_time: Some(NOV_11 + 2 * HOUR),
        rrule: rrule.map(|r| r.to_string()),
    }
}

fn no_updates() -> EventUpdate {
    EventUpdate {
        summary: None,
        description: None,
        location: None,
        dtstart_time: None,
        dtend_time: None,
        dtstart_tz: None,
        dtend_tz: None,
        dtstart_date: None,
        dtend_date: None,
        rrule: None,
        attendee: None,
    }
}

#[test]
fn plan_split_of_a_series() {
    let occurrence = NOV_11 + 7 * DAY;
    let split = plan_this_and_future(&master(Some("FREQ=WEEKLY;UNTIL=20250101T000000Z")), occurrence, &no_updates())
        .ok()
        .unwrap();
    assert_eq!(split.truncated_rrule, "FREQ=WEEKLY;UNTIL=20241117T235959Z");
    assert_eq!(split.new_rrule, "FREQ=WEEKLY");
    assert_eq!(split.new_start, occurrence);
    assert_eq!(split.new_end, Some(occurrence + 2 * HOUR));
    assert_eq!(split.summary, "Lesson");
    assert_eq!(split.location, Some("room".to_string()));
}

#[test]
fn plan_split_uses_the_requested_values() {
    let mut updates = no_updates();
    updates.dtstart_time = Some(NOV_11 + 8 * DAY);
    updates.summary = Some("Moved".to_string());
    updates.location = Some("online".to_string());
    let split = plan_this_and_future(&master(Some("FREQ=DAILY")), NOV_11 + 7 * DAY, &updates).ok().unwrap();
    assert_eq!(split.new_start, NOV_11 + 8 * DAY);
    assert_eq!(split.new_end, Some(NOV_11 + 8 * DAY + 2 * HOUR));
    assert_eq!(split.summary, "Moved");
    assert_eq!(split.location, Some("online".to_string()));
    let mut m = master(Some("FREQ=DAILY"));
    m.dtend_time = None;
    let split = plan_this_and_future(&m, NOV_11, &no_updates()).ok().unwrap();
    assert_eq!(split.new_end, Some(NOV_11 + HOUR));
}

#[test]
fn plan_split_needs_a_series() {
    assert!(matches!(plan_this_and_future(&master(None), NOV_11, &no_updates()), Err(DbError::NotRecurring)));
}

#[test]
fn attendee_change_cases() {
    let a = Some("a".to_string());
    let b = Some("b".to_string());
    assert!(matches!(attendee_change(&a, &None), AttendeeChange::Keep));
    assert!(matches!(attendee_change(&a, &a), AttendeeChange::Keep));
    match attendee_change(&a, &b) {
        AttendeeChange::Replace { remove_current, new_attendee } => {
            assert!(remove_current);
            assert_eq!(new_attendee, "b");
        }
        AttendeeChange::Keep => panic!("expected a replacement"),
    }
    match attendee_change(&None, &b) {
        AttendeeChange::Replace { remove_current, .. } => assert!(!remove_current),
        AttendeeChange::Keep => panic!("expected a replacement"),
    }
}

#[test]
fn delete_actions() {
    match delete_action(Some(NOV_11 + 10 * HOUR), &DeleteScope::ThisOnly) {
        DeleteAction::ExcludeOccurrence { exdate } => {
            assert_eq!(exdate, "2024-11-11T10:00:00+00:00");
            // The stored exclusion reads back as the same instant.
            assert_eq!(parse_date_flexible(&exdate).ok(), Some(NOV_11 + 10 * HOUR));
        }
        _ => panic!("expected an exclusion"),
    }
    assert!(matches!(
        delete_action(Some(NOV_11), &DeleteScope::ThisAndFuture),
        DeleteAction::EndSeriesAt { occurrence } if occurrence == NOV_11
    ));
    assert!(matches!(delete_action(None, &DeleteScope::ThisOnly), DeleteAction::DeleteEvent));
}

#[test]
fn edit_actions() {
    assert!(matches!(edit_action(None, &EditScope::ThisAndFuture), EditAction::EditEvent));
    assert!(matches!(edit_action(Some(5), &EditScope::ThisOnly), EditAction::EditOccurrence { occurrence: 5 }));
    assert!(matches!(edit_action(Some(5), &EditScope::ThisAndFuture), EditAction::SplitSeries { occurrence: 5 }));
}

#[test]
fn deleted_occurrence_is_no_longer_shown() {
    let occurrence = NOV_11 + DAY + 90 * 60_000_000 + 250_000;
    let exdate = match delete_action(Some(occurrence), &DeleteScope::ThisOnly) {
        DeleteAction::ExcludeOccurrence { exdate } => exdate,
        _ => panic!("expected an exclusion"),
    };
    assert_eq!(exdate, "2024-11-12T01:30:00.250+00:00");
    let mut master = event("m", "series", NOV_11, Some(NOV_11 + HOUR));
    master.rrule = Some("FREQ=DAILY".to_string());
    let generated = vec![NOV_11, occurrence, NOV_11 + 2 * DAY];
    let before = expand_events(&vec![master], &vec![Some(generated.clone())], NOV_11, NOV_11 + 3 * DAY, "_")
        .ok()
        .unwrap();
    assert_eq!(starts(&before), generated);
    let mut master = event("m", "series", NOV_11, Some(NOV_11 + HOUR));
    master.rrule = Some("FREQ=DAILY".to_string());
    master.exdate = Some(vec!["2024-11-20".to_string(), exdate]);
    let after = expand_events(&vec![master], &vec![Some(generated)], NOV_11, NOV_11 + 3 * DAY, "_")
        .ok()
        .unwrap();
    assert_eq!(starts(&after), vec![NOV_11, NOV_11 + 2 * DAY]);
}

#[test]
fn expand_window_refuses_ends_out_of_range() {
    // 262142-12-31T00:00:00Z, one day before the last instant chrono can hold.
    let last_day: i64 = 8_210_266_790_400_000_000;
    let mut master = event("m", "s", last_day, Some(last_day + 2 * DAY));
    master.rrule = Some("FREQ=DAILY".to_string());
    let events = vec![master];
    assert!(expand_window(&events, &vec![Some(vec![last_day])], last_day, last_day, "_").is_none());
    // Without the occurrence nothing is moved, so nothing overflows.
    let shown = expand_window(&events, &vec![Some(vec![])], last_day, last_day, "_").unwrap();
    assert!(shown.ok().unwrap().is_empty());
    // An occurrence replaced by a stored exception is not moved either.
    let mut series = event("m", "s", last_day, Some(last_day + 2 * DAY));
    series.rrule = Some("FREQ=DAILY".to_string());
    let mut exception = event("x", "s", NOV_11, None);
    exception.recurrence_id = Some(last_day);
    let replaced = expand_window(&vec![series, exception], &vec![Some(vec![last_day]), None], last_day, last_day, "_");
    assert!(replaced.unwrap().ok().unwrap().is_empty());
    let ok = expand_window(&vec![event("a", "ua", NOV_11, Some(NOV_11 + HOUR))], &vec![Some(vec![NOV_11])], NOV_11, NOV_11 + DAY, "_")
        .unwrap()
        .ok()
        .unwrap();
    assert_eq!(starts(&ok), vec![NOV_11]);
}
