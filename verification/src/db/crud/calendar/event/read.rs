//! Reading a calendar: parsing the stored extra dates (RDATE) and excluded dates
//! (EXDATE) of a series, and expanding the stored events of a time window into the
//! events a calendar shows.
use std::collections::HashSet;

use vstd::prelude::*;

use crate::datetime::{
    datetime_parse_from_rfc3339, naive_datetime_parse_from_str, ical_utc_pattern, instant_in_range, iso_date_pattern,
    naive_date_parse_from_str, parse_naive_datetime, parse_naive_date, parse_rfc3339,
};
use crate::db::error::DbError;
use crate::text::{
    clone_opt_string, clone_opt_strings, i64_to_decimal, int_decimal, str_eq, trim, trim_str,
};
use crate::types::{opt_string_view, opt_strings_view, EventDB, EventSmall};

verus! {

/// `%Y%m%d`, an iCalendar date.
pub open spec fn compact_date_pattern() -> Seq<char> {
    seq!['%', 'Y', '%', 'm', '%', 'd']
}

/// The message of a date in none of the supported formats.
pub open spec fn unsupported_date_msg(s: Seq<char>) -> Seq<char> {
    seq![
        'U', 'n', 's', 'u', 'p', 'p', 'o', 'r', 't', 'e', 'd', ' ', 'd', 'a', 't', 'e', ' ', 'f',
        'o', 'r', 'm', 'a', 't', ':', ' ',
    ] + s
}

/// The first of four parse attempts that succeeded.
pub open spec fn first_parsed(a: Option<i64>, b: Option<i64>, c: Option<i64>, d: Option<i64>) -> Option<i64> {
    if a is Some {
        a
    } else if b is Some {
        b
    } else if c is Some {
        c
    } else {
        d
    }
}

/// The instant a stored date denotes: an ISO date (at midnight UTC), an RFC 3339
/// date-time, an iCalendar UTC date-time or an iCalendar date, tried in that order.
pub open spec fn flexible_date(s: Seq<char>) -> Option<i64> {
    first_parsed(
        naive_date_parse_from_str(s, iso_date_pattern()),
        datetime_parse_from_rfc3339(s),
        naive_datetime_parse_from_str(s, ical_utc_pattern()),
        naive_date_parse_from_str(s, compact_date_pattern()),
    )
}

/// The stored-date formats are tried in a fixed order: an ISO date first, then an
/// RFC 3339 date-time, then the iCalendar UTC date-time, then the iCalendar date; the
/// first that parses gives the instant.
pub proof fn lemma_date_formats_in_order(s: Seq<char>)
    ensures
        naive_date_parse_from_str(s, seq!['%', 'Y', '-', '%', 'm', '-', '%', 'd']) matches Some(x)
            ==> flexible_date(s) == Some(x),
        naive_date_parse_from_str(s, seq!['%', 'Y', '-', '%', 'm', '-', '%', 'd']) is None
            ==> (datetime_parse_from_rfc3339(s) matches Some(x) ==> flexible_date(s) == Some(x)),
        naive_date_parse_from_str(s, seq!['%', 'Y', '-', '%', 'm', '-', '%', 'd']) is None
            && datetime_parse_from_rfc3339(s) is None
            ==> flexible_date(s) == match naive_datetime_parse_from_str(
                s, seq!['%', 'Y', '%', 'm', '%', 'd', 'T', '%', 'H', '%', 'M', '%', 'S', 'Z']) {
                Some(x) => Some(x),
                None => naive_date_parse_from_str(s, seq!['%', 'Y', '%', 'm', '%', 'd']),
            },
{
    assert(iso_date_pattern() =~= seq!['%', 'Y', '-', '%', 'm', '-', '%', 'd']);
    assert(ical_utc_pattern() =~= seq!['%', 'Y', '%', 'm', '%', 'd', 'T', '%', 'H', '%', 'M', '%', 'S', 'Z']);
    assert(compact_date_pattern() =~= seq!['%', 'Y', '%', 'm', '%', 'd']);
}

/// The parse error for a date string.
fn unsupported_date(date_str: &str) -> (r: DbError)
    ensures
        r matches DbError::ParseError(m) && m@ == unsupported_date_msg(date_str@),
{
    proof {
        reveal_strlit("Unsupported date format: ");
    }
    let mut m = String::from_str("Unsupported date format: ");
    m.append(date_str);
    DbError::ParseError(m)
}

/// Picks the instant of the first parse attempt that succeeded, in the order of
/// `flexible_date`, or reports the string as unsupported.
pub fn resolve_date(
    date_str: &str,
    iso: Option<i64>,
    rfc3339: Option<i64>,
    ical: Option<i64>,
    compact: Option<i64>,
) -> (r: Result<i64, DbError>)
    ensures
        match first_parsed(iso, rfc3339, ical, compact) {
            Some(t) => r matches Ok(x) && x == t,
            None => r matches Err(DbError::ParseError(m)) && m@ == unsupported_date_msg(date_str@),
        },
{
    if let Some(t) = iso {
        return Ok(t);
    }
    if let Some(t) = rfc3339 {
        return Ok(t);
    }
    if let Some(t) = ical {
        return Ok(t);
    }
    if let Some(t) = compact {
        return Ok(t);
    }
    Err(unsupported_date(date_str))
}

/// Parses a stored date in any of the supported formats (see `flexible_date`).
pub fn parse_date_flexible(date_str: &str) -> (r: Result<i64, DbError>)
    ensures
        match flexible_date(date_str@) {
            Some(t) => r matches Ok(x) && x == t,
            None => r matches Err(DbError::ParseError(m)) && m@ == unsupported_date_msg(date_str@),
        },
        r matches Ok(t) ==> instant_in_range(t as int),
{
    proof {
        reveal_strlit("%Y-%m-%d");
        reveal_strlit("%Y%m%dT%H%M%SZ");
        reveal_strlit("%Y%m%d");
        assert("%Y-%m-%d"@ =~= iso_date_pattern());
        assert("%Y%m%dT%H%M%SZ"@ =~= ical_utc_pattern());
        assert("%Y%m%d"@ =~= compact_date_pattern());
    }
    let iso = parse_naive_date(date_str, "%Y-%m-%d");
    let rfc3339 = parse_rfc3339(date_str);
    let ical = parse_naive_datetime(date_str, "%Y%m%dT%H%M%SZ");
    let compact = parse_naive_date(date_str, "%Y%m%d");
    resolve_date(date_str, iso, rfc3339, ical, compact)
}

/// The excluded instants of a list of EXDATE strings: each entry is trimmed, empty
/// entries are skipped, and the first entry that does not parse is the error.
pub open spec fn exdates_result(list: Seq<String>) -> Result<Seq<i64>, Seq<char>>
    decreases list.len(),
{
    if list.len() == 0 {
        Ok(Seq::empty())
    } else {
        match exdates_result(list.drop_last()) {
            Err(m) => Err(m),
            Ok(prev) => {
                let t = trim(list.last()@);
                if t.len() == 0 {
                    Ok(prev)
                } else {
                    match flexible_date(t) {
                        Some(x) => Ok(prev.push(x)),
                        None => Err(unsupported_date_msg(t)),
                    }
                }
            },
        }
    }
}

/// `exdates_result` of an optional list; no list excludes nothing.
pub open spec fn exdates_of(o: Option<Seq<String>>) -> Result<Seq<i64>, Seq<char>> {
    match o {
        Some(l) => exdates_result(l),
        None => Ok(Seq::empty()),
    }
}

/// The extra instants of a list of RDATE strings that fall in `[start, end]`, in list
/// order; the first entry that does not parse is the error.
pub open spec fn rdates_result(list: Seq<String>, start: i64, end: i64) -> Result<Seq<i64>, Seq<char>>
    decreases list.len(),
{
    if list.len() == 0 {
        Ok(Seq::empty())
    } else {
        match rdates_result(list.drop_last(), start, end) {
            Err(m) => Err(m),
            Ok(prev) => match flexible_date(list.last()@) {
                Some(x) => if start <= x && x <= end {
                    Ok(prev.push(x))
                } else {
                    Ok(prev)
                },
                None => Err(unsupported_date_msg(list.last()@)),
            },
        }
    }
}

/// `rdates_result` of an optional list; no list adds nothing.
pub open spec fn rdates_of(o: Option<Seq<String>>, start: i64, end: i64) -> Result<Seq<i64>, Seq<char>> {
    match o {
        Some(l) => rdates_result(l, start, end),
        None => Ok(Seq::empty()),
    }
}

/// Parses the EXDATE list of a series into the set of instants it excludes.
pub fn parse_exdates(exdate_array: &Option<Vec<String>>) -> (r: Result<HashSet<i64>, DbError>)
    ensures
        match exdates_of(opt_strings_view(*exdate_array)) {
            Ok(v) => r matches Ok(x) && x@ == v.to_set(),
            Err(m) => r matches Err(DbError::ParseError(e)) && e@ == m,
        },
        r matches Ok(x) ==> forall|t: i64| #[trigger] x@.contains(t) ==> instant_in_range(t as int),
{
    let mut exdates: HashSet<i64> = HashSet::new();
    let ghost mut parsed: Seq<i64> = Seq::empty();
    if let Some(exdate_list) = exdate_array {
        let mut i: usize = 0;
        while i < exdate_list.len()
            invariant
                0 <= i <= exdate_list.len(),
                opt_strings_view(*exdate_array) == Some(exdate_list@),
                exdates_result(exdate_list@.subrange(0, i as int)) == Ok::<Seq<i64>, Seq<char>>(parsed),
                exdates@ == parsed.to_set(),
                forall|t: i64| #[trigger] exdates@.contains(t) ==> instant_in_range(t as int),
            decreases exdate_list.len() - i,
        {
            let ghost pre = exdate_list@.subrange(0, i as int);
            let ghost next = exdate_list@.subrange(0, i + 1);
            assert(next.drop_last() =~= pre);
            let date_str = trim_str(exdate_list[i].as_str());
            assert(next.last() == exdate_list@[i as int]);
            if date_str.unicode_len() != 0 {
                match parse_date_flexible(date_str) {
                    Ok(t) => {
                        exdates.insert(t);
                        proof {
                            parsed.lemma_push_to_set_commute(t);
                            parsed = parsed.push(t);
                        }
                    },
                    Err(e) => {
                        proof {
                            assert(next.last() == exdate_list@[i as int]);
                            assert(exdates_result(next) == Err::<Seq<i64>, Seq<char>>(unsupported_date_msg(date_str@)));
                            lemma_exdates_error_persists(exdate_list@, i as int + 1);
                            assert(opt_strings_view(*exdate_array) == Some(exdate_list@));
                        }
                        return Err(e);
                    },
                }
            }
            i = i + 1;
        }
        assert(exdate_list@.subrange(0, exdate_list.len() as int) =~= exdate_list@);
    } else {
        assert(parsed.to_set() =~= Set::<i64>::empty());
    }
    Ok(exdates)
}

proof fn lemma_exdates_error_persists(list: Seq<String>, k: int)
    requires
        0 <= k <= list.len(),
        exdates_result(list.subrange(0, k)) is Err,
    ensures
        exdates_result(list) == exdates_result(list.subrange(0, k)),
    decreases list.len() - k,
{
    if k == list.len() {
        assert(list.subrange(0, k) =~= list);
    } else {
        let next = list.subrange(0, k + 1);
        assert(next.drop_last() =~= list.subrange(0, k));
        lemma_exdates_error_persists(list, k + 1);
    }
}

proof fn lemma_rdates_error_persists(list: Seq<String>, start: i64, end: i64, k: int)
    requires
        0 <= k <= list.len(),
        rdates_result(list.subrange(0, k), start, end) is Err,
    ensures
        rdates_result(list, start, end) == rdates_result(list.subrange(0, k), start, end),
    decreases list.len() - k,
{
    if k == list.len() {
        assert(list.subrange(0, k) =~= list);
    } else {
        let next = list.subrange(0, k + 1);
        assert(next.drop_last() =~= list.subrange(0, k));
        lemma_rdates_error_persists(list, start, end, k + 1);
    }
}

/// Parses the RDATE list of a series and keeps the instants in `[start, end]`.
pub fn parse_rdates_in_window(rdate: &Option<Vec<String>>, start: i64, end: i64) -> (r: Result<Vec<i64>, DbError>)
    ensures
        match rdates_of(opt_strings_view(*rdate), start, end) {
            Ok(v) => r matches Ok(x) && x@ == v,
            Err(m) => r matches Err(DbError::ParseError(e)) && e@ == m,
        },
        r matches Ok(x) ==> forall|k: int| 0 <= k < x.len() ==> start <= #[trigger] x[k] <= end,
{
    let mut rdates: Vec<i64> = Vec::new();
    if let Some(rdate_list) = rdate {
        let mut i: usize = 0;
        while i < rdate_list.len()
            invariant
                0 <= i <= rdate_list.len(),
                opt_strings_view(*rdate) == Some(rdate_list@),
                rdates_result(rdate_list@.subrange(0, i as int), start, end) == Ok::<Seq<i64>, Seq<char>>(rdates@),
                forall|k: int| 0 <= k < rdates.len() ==> start <= #[trigger] rdates[k] <= end,
            decreases rdate_list.len() - i,
        {
            let ghost pre = rdate_list@.subrange(0, i as int);
            let ghost next = rdate_list@.subrange(0, i + 1);
            assert(next.drop_last() =~= pre);
            assert(next.last() == rdate_list@[i as int]);
            match parse_date_flexible(rdate_list[i].as_str()) {
                Ok(t) => {
                    if t >= start && t <= end {
                        rdates.push(t);
                    }
                },
                Err(e) => {
                    proof {
                        assert(next.last() == rdate_list@[i as int]);
                        assert(rdates_result(next, start, end) == Err::<Seq<i64>, Seq<char>>(unsupported_date_msg(rdate_list@[i as int]@)));
                        lemma_rdates_error_persists(rdate_list@, start, end, i as int + 1);
                        assert(opt_strings_view(*rdate) == Some(rdate_list@));
                    }
                    return Err(e);
                },
            }
            i = i + 1;
        }
        assert(rdate_list@.subrange(0, rdate_list.len() as int) =~= rdate_list@);
    }
    Ok(rdates)
}

/// Whether some stored exception of the series `uid` replaces its occurrence at `t`.
pub open spec fn has_exception_at(events: Seq<EventDB>, uid: Seq<char>, t: i64) -> bool {
    exists|j: int|
        0 <= j < events.len() && #[trigger] events[j].recurrence_id == Some(t) && events[j].uid@
            == uid
}

/// The occurrences of a series that become virtual instances: the distinct candidate
/// instants, in order of first appearance, that are neither excluded nor replaced by
/// an exception.
pub open spec fn kept_occurrences(
    candidates: Seq<i64>,
    excluded: Seq<i64>,
    events: Seq<EventDB>,
    uid: Seq<char>,
) -> Seq<i64>
    decreases candidates.len(),
{
    if candidates.len() == 0 {
        Seq::empty()
    } else {
        let prev = kept_occurrences(candidates.drop_last(), excluded, events, uid);
        let t = candidates.last();
        if !excluded.contains(t) && !has_exception_at(events, uid, t) && !prev.contains(t) {
            prev.push(t)
        } else {
            prev
        }
    }
}

/// The occurrences shown for a series are exactly its candidate instants that are
/// neither excluded by EXDATE nor replaced by a stored exception, each shown once.
pub proof fn lemma_kept_occurrences(
    candidates: Seq<i64>,
    excluded: Seq<i64>,
    events: Seq<EventDB>,
    uid: Seq<char>,
)
    ensures
        forall|k: int|
            0 <= k < kept_occurrences(candidates, excluded, events, uid).len() ==> {
                let t = #[trigger] kept_occurrences(candidates, excluded, events, uid)[k];
                &&& candidates.contains(t)
                &&& !excluded.contains(t)
                &&& !has_exception_at(events, uid, t)
            },
        forall|j: int, k: int|
            0 <= j < k < kept_occurrences(candidates, excluded, events, uid).len()
                ==> kept_occurrences(candidates, excluded, events, uid)[j]
                != kept_occurrences(candidates, excluded, events, uid)[k],
        forall|t: i64|
            candidates.contains(t) && !excluded.contains(t) && !has_exception_at(events, uid, t)
                ==> kept_occurrences(candidates, excluded, events, uid).contains(t),
    decreases candidates.len(),
{
    let kept = kept_occurrences(candidates, excluded, events, uid);
    if candidates.len() > 0 {
        let init = candidates.drop_last();
        let last = candidates.last();
        let prev = kept_occurrences(init, excluded, events, uid);
        lemma_kept_occurrences(init, excluded, events, uid);
        assert forall|k: int| 0 <= k < kept.len() implies {
            let t = #[trigger] kept[k];
            &&& candidates.contains(t)
            &&& !excluded.contains(t)
            &&& !has_exception_at(events, uid, t)
        } by {
            if k < prev.len() {
                assert(kept[k] == prev[k]);
                let t = prev[k];
                let w = choose|w: int| 0 <= w < init.len() && init[w] == t;
                assert(candidates[w] == t);
            } else {
                assert(kept[k] == last);
                assert(candidates[candidates.len() - 1] == last);
            }
        }
        assert forall|j: int, k: int| 0 <= j < k < kept.len() implies kept[j] != kept[k] by {
            if k < prev.len() {
                assert(kept[j] == prev[j] && kept[k] == prev[k]);
            } else {
                assert(kept[j] == prev[j]);
                assert(!prev.contains(last));
            }
        }
        assert forall|t: i64|
            candidates.contains(t) && !excluded.contains(t) && !has_exception_at(events, uid, t)
            implies kept.contains(t) by {
            let w = choose|w: int| 0 <= w < candidates.len() && candidates[w] == t;
            if w < init.len() {
                assert(init[w] == t);
                assert(prev.contains(t));
                let v = choose|v: int| 0 <= v < prev.len() && prev[v] == t;
                assert(kept[v] == t);
            } else if prev.contains(t) {
                let v = choose|v: int| 0 <= v < prev.len() && prev[v] == t;
                assert(kept[v] == t);
            } else {
                assert(kept[kept.len() - 1] == t);
            }
        }
    }
}

/// The instance of a non-recurring event.
pub open spec fn is_single_instance(out: EventSmall, e: EventDB) -> bool {
    &&& out.db_data.id@ == e.id@
    &&& out.db_data.uid@ == e.uid@
    &&& out.db_data.recurrence_id is None
    &&& out.db_data.rrule is None
    &&& out.db_data.rdate is None
    &&& out.db_data.exdate is None
    &&& out.db_data.summary@ == e.summary@
    &&& opt_string_view(out.db_data.location) == opt_string_view(e.location)
    &&& out.db_data.dtstart_time == e.dtstart_time
    &&& out.db_data.dtend_time == e.dtend_time
    &&& !out.is_recurring
    &&& !out.is_exception
}

/// The end of the occurrence at `t` of a series that starts at `start` and ends at `end`.
pub open spec fn shifted_end(end: Option<i64>, start: i64, t: i64) -> Option<i64> {
    match end {
        Some(e) => Some((t + (e - start)) as i64),
        None => None,
    }
}

/// The identifier of the virtual occurrence at `t` of the series `master_id`: the
/// master's id, the separator and the occurrence's Unix time in whole seconds.
pub open spec fn occurrence_id(master_id: Seq<char>, separator: Seq<char>, t: i64) -> Seq<char> {
    master_id + separator + int_decimal(t as int / 1000000)
}

/// The virtual instance of the occurrence at `t` of the series `m`. It carries the
/// master's RDATE list both as its RDATE and as its EXDATE.
pub open spec fn is_virtual_instance(out: EventSmall, m: EventDB, t: i64, separator: Seq<char>) -> bool {
    &&& out.db_data.id@ == occurrence_id(m.id@, separator, t)
    &&& out.db_data.uid@ == m.uid@
    &&& opt_string_view(out.db_data.rrule) == opt_string_view(m.rrule)
    &&& opt_strings_view(out.db_data.rdate) == opt_strings_view(m.rdate)
    &&& opt_strings_view(out.db_data.exdate) == opt_strings_view(m.rdate)
    &&& out.db_data.recurrence_id is None
    &&& out.db_data.summary@ == m.summary@
    &&& opt_string_view(out.db_data.location) == opt_string_view(m.location)
    &&& out.db_data.dtstart_time == t
    &&& out.db_data.dtend_time == shifted_end(m.dtend_time, m.dtstart_time, t)
    &&& out.is_recurring
    &&& !out.is_exception
}

/// The instance of a stored exception.
pub open spec fn is_exception_instance(out: EventSmall, x: EventDB) -> bool {
    &&& out.db_data.id@ == x.id@
    &&& out.db_data.uid@ == x.uid@
    &&& out.db_data.recurrence_id == x.recurrence_id
    &&& out.db_data.rrule is None
    &&& out.db_data.rdate is None
    &&& out.db_data.exdate is None
    &&& out.db_data.summary@ == x.summary@
    &&& opt_string_view(out.db_data.location) == opt_string_view(x.location)
    &&& out.db_data.dtstart_time == x.dtstart_time
    &&& out.db_data.dtend_time == x.dtend_time
    &&& out.is_recurring
    &&& out.is_exception
}

/// The view of the recurrence expansions: for each event, the occurrences its rule
/// generated, or `None` where the event has no rule.
pub open spec fn expansions_view(exps: Seq<Option<Vec<i64>>>, i: int) -> Option<Seq<i64>> {
    match exps[i] {
        Some(g) => Some(g@),
        None => None,
    }
}

/// What is shown for event `i` among the masters (events without `recurrence_id`): a
/// key `(i, None, false)` for a single event, `(i, Some(t), false)` for each kept
/// occurrence `t` of a series. Exceptions contribute nothing here.
pub open spec fn master_keys_of(
    events: Seq<EventDB>,
    exps: Seq<Option<Vec<i64>>>,
    start: i64,
    end: i64,
    i: int,
) -> Seq<(int, Option<i64>, bool)> {
    let e = events[i];
    if e.recurrence_id is Some {
        Seq::empty()
    } else {
        match expansions_view(exps, i) {
            None => seq![(i, None::<i64>, false)],
            Some(g) => match (rdates_of(opt_strings_view(e.rdate), start, end), exdates_of(opt_strings_view(e.exdate))) {
                (Ok(rd), Ok(xd)) => kept_occurrences(g + rd, xd, events, e.uid@).map_values(
                    |t: i64| (i, Some(t), false),
                ),
                _ => Seq::empty(),
            },
        }
    }
}

/// The keys of the masters among the first `n` events, in event order.
pub open spec fn master_keys(
    events: Seq<EventDB>,
    exps: Seq<Option<Vec<i64>>>,
    start: i64,
    end: i64,
    n: int,
) -> Seq<(int, Option<i64>, bool)>
    decreases n,
{
    if n <= 0 {
        Seq::empty()
    } else {
        master_keys(events, exps, start, end, n - 1) + master_keys_of(events, exps, start, end, n - 1)
    }
}

/// The keys `(i, None, true)` of the exceptions among the first `n` events that start
/// in `[start, end]`, in event order.
pub open spec fn exception_keys(events: Seq<EventDB>, start: i64, end: i64, n: int) -> Seq<(int, Option<i64>, bool)>
    decreases n,
{
    if n <= 0 {
        Seq::empty()
    } else {
        let e = events[n - 1];
        let prev = exception_keys(events, start, end, n - 1);
        if e.recurrence_id is Some && start <= e.dtstart_time <= end {
            prev.push((n - 1, None::<i64>, true))
        } else {
            prev
        }
    }
}

/// Everything shown for a window: the masters' instances, then the exceptions.
pub open spec fn window_keys(events: Seq<EventDB>, exps: Seq<Option<Vec<i64>>>, start: i64, end: i64) -> Seq<(int, Option<i64>, bool)> {
    master_keys(events, exps, start, end, events.len() as int) + exception_keys(events, start, end, events.len() as int)
}

/// Whether `out` is the instance that `key` describes.
pub open spec fn instance_matches(out: EventSmall, events: Seq<EventDB>, key: (int, Option<i64>, bool), separator: Seq<char>) -> bool {
    let e = events[key.0];
    if key.2 {
        is_exception_instance(out, e)
    } else {
        match key.1 {
            None => is_single_instance(out, e),
            Some(t) => is_virtual_instance(out, e, t, separator),
        }
    }
}

/// The parse error met while expanding event `i`, if any: a series' RDATE list is read
/// before its EXDATE list.
pub open spec fn event_error(events: Seq<EventDB>, exps: Seq<Option<Vec<i64>>>, start: i64, end: i64, i: int) -> Option<Seq<char>> {
    let e = events[i];
    if e.recurrence_id is None && expansions_view(exps, i) is Some {
        match rdates_of(opt_strings_view(e.rdate), start, end) {
            Err(m) => Some(m),
            Ok(_) => match exdates_of(opt_strings_view(e.exdate)) {
                Err(m) => Some(m),
                Ok(_) => None,
            },
        }
    } else {
        None
    }
}

/// The first parse error among the first `n` events.
pub open spec fn first_error(events: Seq<EventDB>, exps: Seq<Option<Vec<i64>>>, start: i64, end: i64, n: int) -> Option<Seq<char>>
    decreases n,
{
    if n <= 0 {
        None
    } else {
        match first_error(events, exps, start, end, n - 1) {
            Some(m) => Some(m),
            None => event_error(events, exps, start, end, n - 1),
        }
    }
}

/// Every EXDATE entry that denotes an instant excludes it: where entry `j` of the list,
/// trimmed, is not empty and parses to `t`, the parsed list, when it parses, holds `t`.
pub proof fn lemma_excluded_entry_parsed(list: Seq<String>, j: int, t: i64)
    requires
        0 <= j < list.len(),
        trim(list[j]@).len() > 0,
        flexible_date(trim(list[j]@)) == Some(t),
    ensures
        exdates_result(list) matches Ok(xs) ==> xs.contains(t),
    decreases list.len(),
{
    if let Ok(xs) = exdates_result(list) {
        let prev = exdates_result(list.drop_last());
        if j == list.len() - 1 {
            assert(xs == prev->Ok_0.push(t));
            assert(xs[xs.len() - 1] == t);
        } else {
            assert(list.drop_last()[j] == list[j]);
            lemma_excluded_entry_parsed(list.drop_last(), j, t);
            let p = prev->Ok_0;
            let w = choose|w: int| 0 <= w < p.len() && p[w] == t;
            assert(xs[w] == p[w]);
        }
    }
}

proof fn lemma_master_keys_name_their_event(
    events: Seq<EventDB>,
    exps: Seq<Option<Vec<i64>>>,
    start: i64,
    end: i64,
    n: int,
    key: (int, Option<i64>, bool),
)
    requires
        n <= events.len(),
        master_keys(events, exps, start, end, n).contains(key),
    ensures
        0 <= key.0 < n,
        master_keys_of(events, exps, start, end, key.0).contains(key),
    decreases n,
{
    let prev = master_keys(events, exps, start, end, n - 1);
    let own = master_keys_of(events, exps, start, end, n - 1);
    let all = master_keys(events, exps, start, end, n);
    let w = choose|w: int| 0 <= w < all.len() && all[w] == key;
    if w < prev.len() {
        assert(prev[w] == key);
        lemma_master_keys_name_their_event(events, exps, start, end, n - 1, key);
    } else {
        assert(own[w - prev.len()] == key);
        let e = events[n - 1];
        if e.recurrence_id is None {
            if let Some(g) = expansions_view(exps, n - 1) {
                if let (Ok(rd), Ok(xd)) = (rdates_of(opt_strings_view(e.rdate), start, end), exdates_of(opt_strings_view(e.exdate))) {
                    let kept = kept_occurrences(g + rd, xd, events, e.uid@);
                    assert(own[w - prev.len()] == (n - 1, Some(kept[w - prev.len()]), false));
                }
            }
        }
    }
}

proof fn lemma_exception_keys_are_exceptions(events: Seq<EventDB>, start: i64, end: i64, n: int, key: (int, Option<i64>, bool))
    requires
        exception_keys(events, start, end, n).contains(key),
    ensures
        key.2,
    decreases n,
{
    let prev = exception_keys(events, start, end, n - 1);
    let all = exception_keys(events, start, end, n);
    let w = choose|w: int| 0 <= w < all.len() && all[w] == key;
    if w < prev.len() {
        assert(prev[w] == key);
        lemma_exception_keys_are_exceptions(events, start, end, n - 1, key);
    }
}

/// An excluded occurrence is never shown: where an entry of the EXDATE list of event
/// `i` denotes the instant `t`, no instance of the window is event `i`'s occurrence at
/// `t`.
pub proof fn lemma_excluded_occurrence_hidden(
    events: Seq<EventDB>,
    exps: Seq<Option<Vec<i64>>>,
    start: i64,
    end: i64,
    i: int,
    j: int,
    t: i64,
)
    requires
        0 <= i < events.len(),
        events[i].exdate matches Some(l) && 0 <= j < l.len() && trim(l[j]@).len() > 0
            && flexible_date(trim(l[j]@)) == Some(t),
    ensures
        !window_keys(events, exps, start, end).contains((i, Some(t), false)),
{
    let key = (i, Some(t), false);
    let n = events.len() as int;
    let masters = master_keys(events, exps, start, end, n);
    let exceptions = exception_keys(events, start, end, n);
    let all = window_keys(events, exps, start, end);
    if all.contains(key) {
        let w = choose|w: int| 0 <= w < all.len() && all[w] == key;
        if w < masters.len() {
            assert(masters[w] == key);
            lemma_master_keys_name_their_event(events, exps, start, end, n, key);
            let e = events[i];
            let own = master_keys_of(events, exps, start, end, i);
            let v = choose|v: int| 0 <= v < own.len() && own[v] == key;
            let l = e.exdate->0;
            assert(opt_strings_view(e.exdate) == Some(l@));
            lemma_excluded_entry_parsed(l@, j, t);
            let g = expansions_view(exps, i)->0;
            let rd = rdates_of(opt_strings_view(e.rdate), start, end)->Ok_0;
            let xd = exdates_of(opt_strings_view(e.exdate))->Ok_0;
            let kept = kept_occurrences(g + rd, xd, events, e.uid@);
            assert(own[v] == (i, Some(kept[v]), false));
            lemma_kept_occurrences(g + rd, xd, events, e.uid@);
            assert(!xd.contains(kept[v]));
        } else {
            assert(exceptions[w - masters.len()] == key);
            lemma_exception_keys_are_exceptions(events, start, end, n, key);
        }
    }
}

proof fn lemma_exception_keys_same(a: Seq<EventDB>, b: Seq<EventDB>, start: i64, end: i64, n: int)
    requires
        a.len() == b.len(),
        n <= a.len(),
        forall|j: int| 0 <= j < a.len() ==> a[j].recurrence_id == b[j].recurrence_id && a[j].dtstart_time == b[j].dtstart_time,
    ensures
        exception_keys(a, start, end, n) == exception_keys(b, start, end, n),
    decreases n,
{
    if n > 0 {
        lemma_exception_keys_same(a, b, start, end, n - 1);
    }
}

proof fn lemma_kept_same_exceptions(c: Seq<i64>, xd: Seq<i64>, a: Seq<EventDB>, b: Seq<EventDB>, uid: Seq<char>)
    requires
        forall|t: i64| has_exception_at(a, uid, t) == has_exception_at(b, uid, t),
    ensures
        kept_occurrences(c, xd, a, uid) == kept_occurrences(c, xd, b, uid),
    decreases c.len(),
{
    if c.len() > 0 {
        lemma_kept_same_exceptions(c.drop_last(), xd, a, b, uid);
        assert(has_exception_at(a, uid, c.last()) == has_exception_at(b, uid, c.last()));
    }
}

proof fn lemma_master_keys_include(
    events: Seq<EventDB>,
    exps: Seq<Option<Vec<i64>>>,
    start: i64,
    end: i64,
    n: int,
    q: int,
    key: (int, Option<i64>, bool),
)
    requires
        0 <= q < n,
        master_keys_of(events, exps, start, end, q).contains(key),
    ensures
        master_keys(events, exps, start, end, n).contains(key),
    decreases n,
{
    let prev = master_keys(events, exps, start, end, n - 1);
    let own = master_keys_of(events, exps, start, end, n - 1);
    let all = master_keys(events, exps, start, end, n);
    assert(all == prev + own);
    if q < n - 1 {
        lemma_master_keys_include(events, exps, start, end, n - 1, q, key);
        let w = choose|w: int| 0 <= w < prev.len() && prev[w] == key;
        assert(all[w] == key);
    } else {
        let w = choose|w: int| 0 <= w < own.len() && own[w] == key;
        assert(all[prev.len() + w] == key);
    }
}

/// The EXDATE entries of an optional list, none where there is no list.
pub open spec fn exdate_entries(o: Option<Vec<String>>) -> Seq<String> {
    match o {
        Some(l) => l@,
        None => Seq::empty(),
    }
}

/// Excluding one occurrence keeps the rest: where `after` is `events` with one more
/// entry, denoting the instant `t`, at the end of the EXDATE list of event `i`, every
/// instance the window showed other than event `i`'s occurrence at `t` is still shown,
/// provided the longer list still parses.
pub proof fn lemma_exclusion_keeps_other_instances(
    events: Seq<EventDB>,
    after: Seq<EventDB>,
    exps: Seq<Option<Vec<i64>>>,
    start: i64,
    end: i64,
    i: int,
    entry: String,
    t: i64,
    key: (int, Option<i64>, bool),
)
    requires
        adds_exclusion(events, after, i, entry, t),
        window_keys(events, exps, start, end).contains(key),
        key != (i, Some(t), false),
    ensures
        window_keys(after, exps, start, end).contains(key),
{
    let n = events.len() as int;
    let masters = master_keys(events, exps, start, end, n);
    let exceptions = exception_keys(events, start, end, n);
    let all = window_keys(events, exps, start, end);
    let all2 = window_keys(after, exps, start, end);
    let masters2 = master_keys(after, exps, start, end, n);
    assert forall|j: int| 0 <= j < events.len() implies after[j].recurrence_id == events[j].recurrence_id
        && after[j].dtstart_time == events[j].dtstart_time && after[j].uid == events[j].uid by {
        if j == i {
        }
    }
    lemma_exception_keys_same(events, after, start, end, n);
    let w = choose|w: int| 0 <= w < all.len() && all[w] == key;
    if w >= masters.len() {
        assert(exceptions[w - masters.len()] == key);
        assert(all2[masters2.len() + (w - masters.len())] == key);
        return;
    }
    assert(masters[w] == key);
    lemma_master_keys_name_their_event(events, exps, start, end, n, key);
    let q = key.0;
    let e = events[q];
    let e2 = after[q];
    let own = master_keys_of(events, exps, start, end, q);
    let own2 = master_keys_of(after, exps, start, end, q);
    assert forall|u: Seq<char>, x: i64| has_exception_at(events, u, x) == has_exception_at(after, u, x) by {
        if has_exception_at(events, u, x) {
            let j = choose|j: int| 0 <= j < events.len() && #[trigger] events[j].recurrence_id == Some(x) && events[j].uid@ == u;
            assert(after[j].recurrence_id == Some(x));
        }
        if has_exception_at(after, u, x) {
            let j = choose|j: int| 0 <= j < after.len() && #[trigger] after[j].recurrence_id == Some(x) && after[j].uid@ == u;
            assert(events[j].recurrence_id == Some(x));
        }
    }
    if q != i {
        assert(e2 == e);
        if e.recurrence_id is None {
            if let Some(g) = expansions_view(exps, q) {
                if let (Ok(rd), Ok(xd)) = (rdates_of(opt_strings_view(e.rdate), start, end), exdates_of(opt_strings_view(e.exdate))) {
                    lemma_kept_same_exceptions(g + rd, xd, events, after, e.uid@);
                }
            }
        }
        assert(own2 == own);
    } else {
        let v = choose|v: int| 0 <= v < own.len() && own[v] == key;
        assert(e.recurrence_id is None);
        assert(e2.rdate == e.rdate && e2.uid == e.uid && e2.recurrence_id == e.recurrence_id);
        if expansions_view(exps, q) is None {
            assert(own2 == own);
            assert(own2.contains(key));
            lemma_master_keys_include(after, exps, start, end, n, q, key);
            let w2 = choose|w2: int| 0 <= w2 < masters2.len() && masters2[w2] == key;
            assert(all2[w2] == key);
            return;
        }
        assert(rdates_of(opt_strings_view(e.rdate), start, end) is Ok && exdates_of(opt_strings_view(e.exdate)) is Ok) by {
            if !(rdates_of(opt_strings_view(e.rdate), start, end) is Ok && exdates_of(opt_strings_view(e.exdate)) is Ok) {
                assert(own.len() == 0);
            }
        }
        let g = expansions_view(exps, q)->0;
        let rd = rdates_of(opt_strings_view(e.rdate), start, end)->Ok_0;
        let xd = exdates_of(opt_strings_view(e.exdate))->Ok_0;
        let kept = kept_occurrences(g + rd, xd, events, e.uid@);
        assert(own[v] == (i, Some(kept[v]), false));
        let t2 = kept[v];
        assert(t2 != t);
        let list = exdate_entries(events[i].exdate).push(entry);
        assert(list.drop_last() =~= exdate_entries(events[i].exdate));
        assert(exdate_entries(events[i].exdate) == match opt_strings_view(e.exdate) { Some(l) => l, None => Seq::<String>::empty() });
        assert(exdates_result(exdate_entries(events[i].exdate)) == Ok::<Seq<i64>, Seq<char>>(xd));
        let xd2 = xd.push(t);
        assert(exdates_result(list) == Ok::<Seq<i64>, Seq<char>>(xd2));
        assert(e2.rdate == e.rdate && e2.uid == e.uid);
        lemma_kept_occurrences(g + rd, xd, events, e.uid@);
        assert(kept.contains(t2));
        lemma_kept_occurrences(g + rd, xd2, after, e.uid@);
        assert(!xd2.contains(t2)) by {
            if xd2.contains(t2) {
                let z = choose|z: int| 0 <= z < xd2.len() && xd2[z] == t2;
                if z < xd.len() {
                    assert(xd[z] == t2);
                }
            }
        }
        let kept2 = kept_occurrences(g + rd, xd2, after, e.uid@);
        assert(kept2.contains(t2));
        let v2 = choose|v2: int| 0 <= v2 < kept2.len() && kept2[v2] == t2;
        assert(own2 =~= kept2.map_values(|x: i64| (i, Some(x), false)));
        assert(own2[v2] == key);
    }
    assert(own2.contains(key));
    lemma_master_keys_include(after, exps, start, end, n, q, key);
    let w2 = choose|w2: int| 0 <= w2 < masters2.len() && masters2[w2] == key;
    assert(all2[w2] == key);
}

/// The EXDATE entries of event `i` gain one more entry, denoting `t`, and nothing else
/// of the events changes.
pub open spec fn adds_exclusion(events: Seq<EventDB>, after: Seq<EventDB>, i: int, entry: String, t: i64) -> bool {
    &&& 0 <= i < events.len()
    &&& after.len() == events.len()
    &&& forall|j: int| 0 <= j < events.len() && j != i ==> after[j] == events[j]
    &&& after[i] == (EventDB { exdate: after[i].exdate, ..events[i] })
    &&& opt_strings_view(after[i].exdate) == Some(exdate_entries(events[i].exdate).push(entry))
    &&& trim(entry@).len() > 0
    &&& flexible_date(trim(entry@)) == Some(t)
}

proof fn lemma_adds_exclusion_keeps_exceptions(events: Seq<EventDB>, after: Seq<EventDB>, i: int, entry: String, t: i64)
    requires
        adds_exclusion(events, after, i, entry, t),
    ensures
        forall|u: Seq<char>, x: i64| has_exception_at(events, u, x) == has_exception_at(after, u, x),
        forall|j: int| 0 <= j < events.len() ==> after[j].recurrence_id == events[j].recurrence_id
            && after[j].dtstart_time == events[j].dtstart_time && after[j].dtend_time == events[j].dtend_time
            && after[j].uid == events[j].uid && after[j].rdate == events[j].rdate,
{
    assert forall|j: int| 0 <= j < events.len() implies after[j].recurrence_id == events[j].recurrence_id
        && after[j].dtstart_time == events[j].dtstart_time && after[j].dtend_time == events[j].dtend_time
        && after[j].uid == events[j].uid && after[j].rdate == events[j].rdate by {
        if j == i {
        }
    }
    assert forall|u: Seq<char>, x: i64| has_exception_at(events, u, x) == has_exception_at(after, u, x) by {
        if has_exception_at(events, u, x) {
            let j = choose|j: int| 0 <= j < events.len() && #[trigger] events[j].recurrence_id == Some(x) && events[j].uid@ == u;
            assert(after[j].recurrence_id == Some(x));
        }
        if has_exception_at(after, u, x) {
            let j = choose|j: int| 0 <= j < after.len() && #[trigger] after[j].recurrence_id == Some(x) && after[j].uid@ == u;
            assert(events[j].recurrence_id == Some(x));
        }
    }
}

proof fn lemma_adds_exclusion_exdates(events: Seq<EventDB>, after: Seq<EventDB>, i: int, entry: String, t: i64)
    requires
        adds_exclusion(events, after, i, entry, t),
    ensures
        exdates_of(opt_strings_view(events[i].exdate)) matches Err(m)
            ==> exdates_of(opt_strings_view(after[i].exdate)) == Err::<Seq<i64>, Seq<char>>(m),
        exdates_of(opt_strings_view(events[i].exdate)) matches Ok(xd)
            ==> exdates_of(opt_strings_view(after[i].exdate)) == Ok::<Seq<i64>, Seq<char>>(xd.push(t)),
{
    let old = exdate_entries(events[i].exdate);
    let list = old.push(entry);
    assert(list.drop_last() =~= old);
    assert(list.last() == entry);
    assert(exdates_of(opt_strings_view(events[i].exdate)) == exdates_result(old));
}

proof fn lemma_adds_exclusion_event_error(
    events: Seq<EventDB>,
    after: Seq<EventDB>,
    exps: Seq<Option<Vec<i64>>>,
    start: i64,
    end: i64,
    i: int,
    entry: String,
    t: i64,
    n: int,
)
    requires
        adds_exclusion(events, after, i, entry, t),
        n <= events.len(),
    ensures
        first_error(after, exps, start, end, n) == first_error(events, exps, start, end, n),
    decreases n,
{
    if n > 0 {
        lemma_adds_exclusion_event_error(events, after, exps, start, end, i, entry, t, n - 1);
        lemma_adds_exclusion_keeps_exceptions(events, after, i, entry, t);
        lemma_adds_exclusion_exdates(events, after, i, entry, t);
        let j = n - 1;
        if j != i {
            assert(after[j] == events[j]);
        }
        assert(event_error(after, exps, start, end, j) == event_error(events, exps, start, end, j));
    }
}

proof fn lemma_adds_exclusion_own_keys(
    events: Seq<EventDB>,
    after: Seq<EventDB>,
    exps: Seq<Option<Vec<i64>>>,
    start: i64,
    end: i64,
    i: int,
    entry: String,
    t: i64,
    q: int,
    key: (int, Option<i64>, bool),
)
    requires
        adds_exclusion(events, after, i, entry, t),
        0 <= q < events.len(),
        master_keys_of(after, exps, start, end, q).contains(key),
    ensures
        master_keys_of(events, exps, start, end, q).contains(key),
{
    lemma_adds_exclusion_keeps_exceptions(events, after, i, entry, t);
    lemma_adds_exclusion_exdates(events, after, i, entry, t);
    let e = events[q];
    let e2 = after[q];
    let own = master_keys_of(events, exps, start, end, q);
    let own2 = master_keys_of(after, exps, start, end, q);
    if q != i {
        assert(e2 == e);
        if e.recurrence_id is None {
            if let Some(g) = expansions_view(exps, q) {
                if let (Ok(rd), Ok(xd)) = (rdates_of(opt_strings_view(e.rdate), start, end), exdates_of(opt_strings_view(e.exdate))) {
                    lemma_kept_same_exceptions(g + rd, xd, events, after, e.uid@);
                }
            }
        }
        assert(own2 == own);
    } else if e.recurrence_id is None && expansions_view(exps, q) is Some {
        let v2 = choose|v2: int| 0 <= v2 < own2.len() && own2[v2] == key;
        let g = expansions_view(exps, q)->0;
        let rd = rdates_of(opt_strings_view(e.rdate), start, end)->Ok_0;
        assert(rdates_of(opt_strings_view(e.rdate), start, end) is Ok) by {
            if rdates_of(opt_strings_view(e.rdate), start, end) is Err {
                assert(own2.len() == 0);
            }
        }
        assert(exdates_of(opt_strings_view(e.exdate)) is Ok) by {
            if exdates_of(opt_strings_view(e.exdate)) is Err {
                assert(own2.len() == 0);
            }
        }
        let xd = exdates_of(opt_strings_view(e.exdate))->Ok_0;
        let xd2 = xd.push(t);
        let kept = kept_occurrences(g + rd, xd, events, e.uid@);
        let kept2 = kept_occurrences(g + rd, xd2, after, e.uid@);
        assert(own2[v2] == (i, Some(kept2[v2]), false));
        let t2 = kept2[v2];
        lemma_kept_occurrences(g + rd, xd2, after, e.uid@);
        lemma_kept_occurrences(g + rd, xd, events, e.uid@);
        assert(!xd.contains(t2)) by {
            if xd.contains(t2) {
                let z = choose|z: int| 0 <= z < xd.len() && xd[z] == t2;
                assert(xd2[z] == t2);
            }
        }
        assert(kept.contains(t2));
        let v = choose|v: int| 0 <= v < kept.len() && kept[v] == t2;
        assert(own =~= kept.map_values(|x: i64| (i, Some(x), false)));
        assert(own[v] == key);
    } else {
        assert(own2 == own);
    }
}

/// Excluding one occurrence keeps the read working: where `after` is `events` with one
/// more EXDATE entry on event `i`, denoting `t`, the read of the window meets the same
/// parse error (or none) as before, and every shown end that was in range still is, so
/// an expansion that succeeded before succeeds after.
pub proof fn lemma_exclusion_keeps_read_working(
    events: Seq<EventDB>,
    after: Seq<EventDB>,
    exps: Seq<Option<Vec<i64>>>,
    start: i64,
    end: i64,
    i: int,
    entry: String,
    t: i64,
)
    requires
        adds_exclusion(events, after, i, entry, t),
    ensures
        first_error(after, exps, start, end, after.len() as int) == first_error(events, exps, start, end, events.len() as int),
        shown_ends_in_range(events, exps, start, end) ==> shown_ends_in_range(after, exps, start, end),
{
    let n = events.len() as int;
    lemma_adds_exclusion_event_error(events, after, exps, start, end, i, entry, t, n);
    lemma_adds_exclusion_keeps_exceptions(events, after, i, entry, t);
    if shown_ends_in_range(events, exps, start, end) {
        assert forall|q: int, x: i64|
            0 <= q < after.len() && first_error(after, exps, start, end, q) is None
                && after[q].dtend_time is Some
                && #[trigger] master_keys_of(after, exps, start, end, q).contains((q, Some(x), false))
            implies instant_in_range(x + (after[q].dtend_time->0 - after[q].dtstart_time)) by {
            lemma_adds_exclusion_event_error(events, after, exps, start, end, i, entry, t, q);
            lemma_adds_exclusion_own_keys(events, after, exps, start, end, i, entry, t, q, (q, Some(x), false));
        }
    }
}

proof fn lemma_own_keys_shape(events: Seq<EventDB>, exps: Seq<Option<Vec<i64>>>, start: i64, end: i64, q: int)
    ensures
        forall|k: int| 0 <= k < master_keys_of(events, exps, start, end, q).len()
            ==> (#[trigger] master_keys_of(events, exps, start, end, q)[k]).0 == q
                && !master_keys_of(events, exps, start, end, q)[k].2,
        master_keys_of(events, exps, start, end, q).no_duplicates(),
{
    let own = master_keys_of(events, exps, start, end, q);
    let e = events[q];
    if e.recurrence_id is None {
        if let Some(g) = expansions_view(exps, q) {
            if let (Ok(rd), Ok(xd)) = (rdates_of(opt_strings_view(e.rdate), start, end), exdates_of(opt_strings_view(e.exdate))) {
                let kept = kept_occurrences(g + rd, xd, events, e.uid@);
                lemma_kept_occurrences(g + rd, xd, events, e.uid@);
                assert forall|a: int, b: int| 0 <= a < own.len() && 0 <= b < own.len() && a != b implies own[a] != own[b] by {
                    assert(own[a] == (q, Some(kept[a]), false));
                    assert(own[b] == (q, Some(kept[b]), false));
                    if a < b {
                        assert(kept[a] != kept[b]);
                    } else {
                        assert(kept[b] != kept[a]);
                    }
                }
                assert forall|k: int| 0 <= k < own.len() implies (#[trigger] own[k]).0 == q && !own[k].2 by {
                    assert(own[k] == (q, Some(kept[k]), false));
                }
            }
        }
    }
}

proof fn lemma_master_keys_distinct(events: Seq<EventDB>, exps: Seq<Option<Vec<i64>>>, start: i64, end: i64, n: int)
    requires
        n <= events.len(),
    ensures
        master_keys(events, exps, start, end, n).no_duplicates(),
        forall|k: int| 0 <= k < master_keys(events, exps, start, end, n).len()
            ==> !(#[trigger] master_keys(events, exps, start, end, n)[k]).2,
    decreases n,
{
    if n > 0 {
        lemma_master_keys_distinct(events, exps, start, end, n - 1);
        lemma_own_keys_shape(events, exps, start, end, n - 1);
        let prev = master_keys(events, exps, start, end, n - 1);
        let own = master_keys_of(events, exps, start, end, n - 1);
        let all = master_keys(events, exps, start, end, n);
        assert(all == prev + own);
        assert forall|k: int| 0 <= k < all.len() implies !(#[trigger] all[k]).2 by {
            if k < prev.len() {
                assert(all[k] == prev[k]);
            } else {
                assert(all[k] == own[k - prev.len()]);
            }
        }
        assert forall|a: int, b: int| 0 <= a < all.len() && 0 <= b < all.len() && a != b implies all[a] != all[b] by {
            if a < prev.len() && b < prev.len() {
                assert(all[a] == prev[a] && all[b] == prev[b]);
            } else if a >= prev.len() && b >= prev.len() {
                assert(all[a] == own[a - prev.len()] && all[b] == own[b - prev.len()]);
            } else if a < prev.len() {
                assert(all[a] == prev[a]);
                assert(prev.contains(prev[a]));
                lemma_master_keys_name_their_event(events, exps, start, end, n - 1, prev[a]);
                assert(all[b] == own[b - prev.len()]);
            } else {
                assert(all[b] == prev[b]);
                assert(prev.contains(prev[b]));
                lemma_master_keys_name_their_event(events, exps, start, end, n - 1, prev[b]);
                assert(all[a] == own[a - prev.len()]);
            }
        }
    }
}

proof fn lemma_exception_keys_exact(events: Seq<EventDB>, start: i64, end: i64, n: int)
    requires
        0 <= n <= events.len(),
    ensures
        exception_keys(events, start, end, n).no_duplicates(),
        forall|k: int| 0 <= k < exception_keys(events, start, end, n).len()
            ==> (#[trigger] exception_keys(events, start, end, n)[k]).2
                && 0 <= exception_keys(events, start, end, n)[k].0 < n,
        forall|j: int| 0 <= j < n ==> (exception_keys(events, start, end, n).contains((j, None::<i64>, true))
            <==> (events[j].recurrence_id is Some && start <= events[j].dtstart_time <= end)),
    decreases n,
{
    if n > 0 {
        lemma_exception_keys_exact(events, start, end, n - 1);
        let prev = exception_keys(events, start, end, n - 1);
        let all = exception_keys(events, start, end, n);
        let e = events[n - 1];
        let key = (n - 1, None::<i64>, true);
        if e.recurrence_id is Some && start <= e.dtstart_time <= end {
            assert(all == prev.push(key));
            assert(!prev.contains(key)) by {
                if prev.contains(key) {
                    let w = choose|w: int| 0 <= w < prev.len() && prev[w] == key;
                    assert(prev[w].0 < n - 1);
                }
            }
            assert forall|a: int, b: int| 0 <= a < all.len() && 0 <= b < all.len() && a != b implies all[a] != all[b] by {
                if a < prev.len() && b < prev.len() {
                    assert(all[a] == prev[a] && all[b] == prev[b]);
                } else if a < prev.len() {
                    assert(all[a] == prev[a] && all[b] == key);
                } else {
                    assert(all[b] == prev[b] && all[a] == key);
                }
            }
            assert forall|j: int| 0 <= j < n implies (all.contains((j, None::<i64>, true))
                <==> (events[j].recurrence_id is Some && start <= events[j].dtstart_time <= end)) by {
                if j < n - 1 {
                    if all.contains((j, None::<i64>, true)) {
                        let w = choose|w: int| 0 <= w < all.len() && all[w] == (j, None::<i64>, true);
                        if w < prev.len() {
                            assert(prev[w] == (j, None::<i64>, true));
                        }
                    }
                    if prev.contains((j, None::<i64>, true)) {
                        let w = choose|w: int| 0 <= w < prev.len() && prev[w] == (j, None::<i64>, true);
                        assert(all[w] == prev[w]);
                    }
                } else {
                    assert(all[all.len() - 1] == key);
                }
            }
        } else {
            assert(all == prev);
            assert forall|j: int| 0 <= j < n implies (all.contains((j, None::<i64>, true))
                <==> (events[j].recurrence_id is Some && start <= events[j].dtstart_time <= end)) by {
                if j == n - 1 && all.contains((j, None::<i64>, true)) {
                    let w = choose|w: int| 0 <= w < all.len() && all[w] == (j, None::<i64>, true);
                    assert(prev[w].0 < n - 1);
                }
            }
        }
    }
}

/// Every instance of the window is shown once, and a stored exception is shown exactly
/// when it starts in the window: the window's keys hold no key twice, and hold
/// `(j, None, true)` just where event `j` has a `recurrence_id` and starts in
/// `[start, end]`.
pub proof fn lemma_window_instances_once(events: Seq<EventDB>, exps: Seq<Option<Vec<i64>>>, start: i64, end: i64)
    ensures
        window_keys(events, exps, start, end).no_duplicates(),
        forall|j: int| 0 <= j < events.len() ==> (#[trigger] window_keys(events, exps, start, end).contains((j, None::<i64>, true))
            <==> (events[j].recurrence_id is Some && start <= events[j].dtstart_time <= end)),
{
    let n = events.len() as int;
    let masters = master_keys(events, exps, start, end, n);
    let exceptions = exception_keys(events, start, end, n);
    let all = window_keys(events, exps, start, end);
    lemma_master_keys_distinct(events, exps, start, end, n);
    lemma_exception_keys_exact(events, start, end, n);
    assert(all == masters + exceptions);
    assert forall|a: int, b: int| 0 <= a < all.len() && 0 <= b < all.len() && a != b implies all[a] != all[b] by {
        if a < masters.len() && b < masters.len() {
            assert(all[a] == masters[a] && all[b] == masters[b]);
        } else if a >= masters.len() && b >= masters.len() {
            assert(all[a] == exceptions[a - masters.len()] && all[b] == exceptions[b - masters.len()]);
        } else if a < masters.len() {
            assert(all[a] == masters[a] && all[b] == exceptions[b - masters.len()]);
        } else {
            assert(all[b] == masters[b] && all[a] == exceptions[a - masters.len()]);
        }
    }
    assert forall|j: int| 0 <= j < events.len() implies (#[trigger] all.contains((j, None::<i64>, true))
        <==> (events[j].recurrence_id is Some && start <= events[j].dtstart_time <= end)) by {
        if all.contains((j, None::<i64>, true)) {
            let w = choose|w: int| 0 <= w < all.len() && all[w] == (j, None::<i64>, true);
            if w < masters.len() {
                assert(masters[w] == all[w]);
            } else {
                assert(exceptions[w - masters.len()] == all[w]);
            }
        }
        if exceptions.contains((j, None::<i64>, true)) {
            let w = choose|w: int| 0 <= w < exceptions.len() && exceptions[w] == (j, None::<i64>, true);
            assert(all[masters.len() + w] == exceptions[w]);
        }
    }
}

/// A stored exception replaces an occurrence of its own series only: where no stored
/// event with `recurrence_id == Some(t)` carries the uid of series `i`, and `t` is one of
/// the series' generated or RDATE instants that its EXDATE list does not exclude, the
/// window shows series `i`'s occurrence at `t`, whatever exceptions other series hold
/// at `t`.
pub proof fn lemma_exception_replaces_own_series_only(
    events: Seq<EventDB>,
    exps: Seq<Option<Vec<i64>>>,
    start: i64,
    end: i64,
    i: int,
    t: i64,
)
    requires
        0 <= i < events.len(),
        events[i].recurrence_id is None,
        expansions_view(exps, i) is Some,
        rdates_of(opt_strings_view(events[i].rdate), start, end) is Ok,
        exdates_of(opt_strings_view(events[i].exdate)) is Ok,
        (expansions_view(exps, i)->0 + rdates_of(opt_strings_view(events[i].rdate), start, end)->Ok_0).contains(t),
        !exdates_of(opt_strings_view(events[i].exdate))->Ok_0.contains(t),
        forall|j: int| 0 <= j < events.len() && #[trigger] events[j].recurrence_id == Some(t)
            ==> events[j].uid@ != events[i].uid@,
    ensures
        window_keys(events, exps, start, end).contains((i, Some(t), false)),
{
    let e = events[i];
    let g = expansions_view(exps, i)->0;
    let rd = rdates_of(opt_strings_view(e.rdate), start, end)->Ok_0;
    let xd = exdates_of(opt_strings_view(e.exdate))->Ok_0;
    assert(!has_exception_at(events, e.uid@, t));
    lemma_kept_occurrences(g + rd, xd, events, e.uid@);
    let kept = kept_occurrences(g + rd, xd, events, e.uid@);
    assert(kept.contains(t));
    let v = choose|v: int| 0 <= v < kept.len() && kept[v] == t;
    let own = master_keys_of(events, exps, start, end, i);
    assert(own =~= kept.map_values(|x: i64| (i, Some(x), false)));
    assert(own[v] == (i, Some(t), false));
    let n = events.len() as int;
    lemma_master_keys_include(events, exps, start, end, n, i, (i, Some(t), false));
    let masters = master_keys(events, exps, start, end, n);
    let w = choose|w: int| 0 <= w < masters.len() && masters[w] == (i, Some(t), false);
    assert(window_keys(events, exps, start, end)[w] == (i, Some(t), false));
}

/// An occurrence replaced by a stored exception of its own series is not shown as a
/// virtual instance: where event `j` has `recurrence_id == Some(t)` and the uid of series
/// `i`, no instance of the window is series `i`'s occurrence at `t`.
pub proof fn lemma_replaced_occurrence_hidden(
    events: Seq<EventDB>,
    exps: Seq<Option<Vec<i64>>>,
    start: i64,
    end: i64,
    i: int,
    j: int,
    t: i64,
)
    requires
        0 <= i < events.len(),
        0 <= j < events.len(),
        events[j].recurrence_id == Some(t),
        events[j].uid@ == events[i].uid@,
    ensures
        !window_keys(events, exps, start, end).contains((i, Some(t), false)),
{
    let key = (i, Some(t), false);
    let n = events.len() as int;
    let masters = master_keys(events, exps, start, end, n);
    let exceptions = exception_keys(events, start, end, n);
    let all = window_keys(events, exps, start, end);
    assert(has_exception_at(events, events[i].uid@, t));
    if all.contains(key) {
        let w = choose|w: int| 0 <= w < all.len() && all[w] == key;
        if w < masters.len() {
            assert(masters[w] == key);
            lemma_master_keys_name_their_event(events, exps, start, end, n, key);
            let e = events[i];
            let own = master_keys_of(events, exps, start, end, i);
            let v = choose|v: int| 0 <= v < own.len() && own[v] == key;
            let g = expansions_view(exps, i)->0;
            let rd = rdates_of(opt_strings_view(e.rdate), start, end)->Ok_0;
            let xd = exdates_of(opt_strings_view(e.exdate))->Ok_0;
            let kept = kept_occurrences(g + rd, xd, events, e.uid@);
            assert(own[v] == (i, Some(kept[v]), false));
            lemma_kept_occurrences(g + rd, xd, events, e.uid@);
            assert(!has_exception_at(events, e.uid@, kept[v]));
        } else {
            assert(exceptions[w - masters.len()] == key);
            lemma_exception_keys_are_exceptions(events, start, end, n, key);
        }
    }
}

/// What each shown instance carries, read off the stored event it comes from:
/// - a stored exception is shown with its own id, uid, `recurrence_id`, summary,
///   location, start and end, marked recurring and an exception;
/// - an event without a rule is shown with its own id, uid, summary, location, start and
///   end, marked neither recurring nor an exception;
/// - the occurrence at `t` of a series starts at `t`, lasts as long as the series (no end
///   where the series has none), keeps the series' uid, summary and location, is named
///   by the series' id, the separator and `t` in whole seconds, and is marked recurring
///   and not an exception.
pub proof fn lemma_shown_instance_fields(
    out: EventSmall,
    events: Seq<EventDB>,
    key: (int, Option<i64>, bool),
    separator: Seq<char>,
)
    requires
        instance_matches(out, events, key, separator),
    ensures
        key.2 ==> {
            let x = events[key.0];
            &&& out.db_data.id@ == x.id@
            &&& out.db_data.uid@ == x.uid@
            &&& out.db_data.recurrence_id == x.recurrence_id
            &&& out.db_data.summary@ == x.summary@
            &&& opt_string_view(out.db_data.location) == opt_string_view(x.location)
            &&& out.db_data.dtstart_time == x.dtstart_time
            &&& out.db_data.dtend_time == x.dtend_time
            &&& out.is_recurring && out.is_exception
        },
        !key.2 && key.1 is None ==> {
            let e = events[key.0];
            &&& out.db_data.id@ == e.id@
            &&& out.db_data.uid@ == e.uid@
            &&& out.db_data.summary@ == e.summary@
            &&& opt_string_view(out.db_data.location) == opt_string_view(e.location)
            &&& out.db_data.dtstart_time == e.dtstart_time
            &&& out.db_data.dtend_time == e.dtend_time
            &&& out.db_data.recurrence_id is None
            &&& !out.is_recurring && !out.is_exception
        },
        !key.2 ==> (key.1 matches Some(t) ==> {
            let m = events[key.0];
            &&& out.db_data.dtstart_time == t
            &&& (m.dtend_time matches Some(d) ==> out.db_data.dtend_time == Some((t + (d - m.dtstart_time)) as i64))
            &&& (m.dtend_time is None ==> out.db_data.dtend_time is None)
            &&& out.db_data.id@ == m.id@ + separator + int_decimal(t as int / 1000000)
            &&& out.db_data.uid@ == m.uid@
            &&& out.db_data.summary@ == m.summary@
            &&& opt_string_view(out.db_data.location) == opt_string_view(m.location)
            &&& out.db_data.recurrence_id is None
            &&& out.is_recurring && !out.is_exception
        }),
{
}

proof fn lemma_first_error_persists(events: Seq<EventDB>, exps: Seq<Option<Vec<i64>>>, start: i64, end: i64, k: int, n: int)
    requires
        0 <= k <= n,
        first_error(events, exps, start, end, k) is Some,
    ensures
        first_error(events, exps, start, end, n) == first_error(events, exps, start, end, k),
    decreases n - k,
{
    if n > k {
        lemma_first_error_persists(events, exps, start, end, k, n - 1);
    }
}

/// Whether the series `uid` has a stored exception replacing its occurrence at `t`.
fn exception_exists(events: &Vec<EventDB>, uid: &String, t: i64) -> (r: bool)
    ensures
        r == has_exception_at(events@, uid@, t),
{
    let mut j: usize = 0;
    while j < events.len()
        invariant
            0 <= j <= events.len(),
            forall|q: int| 0 <= q < j ==> !(#[trigger] events@[q].recurrence_id == Some(t) && events@[q].uid@ == uid@),
        decreases events.len() - j,
    {
        let e = &events[j];
        if e.recurrence_id == Some(t) && str_eq(e.uid.as_str(), uid.as_str()) {
            return true;
        }
        j = j + 1;
    }
    false
}

/// `a` followed by `b`.
fn concat_instants(a: &Vec<i64>, b: &Vec<i64>) -> (r: Vec<i64>)
    ensures
        r@ == a@ + b@,
{
    let mut r: Vec<i64> = Vec::new();
    let mut j: usize = 0;
    while j < a.len()
        invariant
            0 <= j <= a.len(),
            r@ == a@.subrange(0, j as int),
        decreases a.len() - j,
    {
        r.push(a[j]);
        j = j + 1;
        assert(r@ =~= a@.subrange(0, j as int));
    }
    let mut k: usize = 0;
    while k < b.len()
        invariant
            0 <= k <= b.len(),
            j == a.len(),
            r@ == a@ + b@.subrange(0, k as int),
        decreases b.len() - k,
    {
        r.push(b[k]);
        k = k + 1;
        assert(r@ =~= a@ + b@.subrange(0, k as int));
    }
    assert(b@.subrange(0, b.len() as int) =~= b@);
    r
}

/// Whether `t` is in `v`.
fn contains_instant(v: &Vec<i64>, t: i64) -> (r: bool)
    ensures
        r == v@.contains(t),
{
    let mut j: usize = 0;
    while j < v.len()
        invariant
            0 <= j <= v.len(),
            forall|q: int| 0 <= q < j ==> v@[q] != t,
        decreases v.len() - j,
    {
        if v[j] == t {
            return true;
        }
        j = j + 1;
    }
    false
}

fn single_instance_of(e: &EventDB) -> (r: EventSmall)
    ensures
        is_single_instance(r, *e),
{
    EventSmall {
        db_data: EventDB {
            id: e.id.clone(),
            uid: e.uid.clone(),
            recurrence_id: None,
            rrule: None,
            rdate: None,
            exdate: None,
            summary: e.summary.clone(),
            location: clone_opt_string(&e.location),
            dtstart_time: e.dtstart_time,
            dtend_time: e.dtend_time,
        },
        is_recurring: false,
        is_exception: false,
    }
}

fn exception_instance_of(x: &EventDB) -> (r: EventSmall)
    ensures
        is_exception_instance(r, *x),
{
    EventSmall {
        db_data: EventDB {
            id: x.id.clone(),
            uid: x.uid.clone(),
            recurrence_id: x.recurrence_id,
            rrule: None,
            exdate: None,
            rdate: None,
            summary: x.summary.clone(),
            location: clone_opt_string(&x.location),
            dtstart_time: x.dtstart_time,
            dtend_time: x.dtend_time,
        },
        is_recurring: true,
        is_exception: true,
    }
}

fn virtual_instance_of(m: &EventDB, t: i64, separator: &str) -> (r: EventSmall)
    requires
        m.dtend_time matches Some(e) ==> instant_in_range(t + (e - m.dtstart_time)),
    ensures
        is_virtual_instance(r, *m, t, separator@),
{
    let mut id = m.id.clone();
    id.append(separator);
    let secs = t.checked_div_euclid(1000000).unwrap();
    let digits = i64_to_decimal(secs);
    id.append(digits.as_str());
    let dtend_time = match m.dtend_time {
        Some(e) => {
            let shifted: i128 = t as i128 + (e as i128 - m.dtstart_time as i128);
            Some(shifted as i64)
        },
        None => None,
    };
    let r = EventSmall {
        db_data: EventDB {
            id,
            uid: m.uid.clone(),
            rrule: clone_opt_string(&m.rrule),
            rdate: clone_opt_strings(&m.rdate),
            exdate: clone_opt_strings(&m.rdate),
            recurrence_id: None,
            summary: m.summary.clone(),
            dtstart_time: t,
            location: clone_opt_string(&m.location),
            dtend_time,
        },
        is_recurring: true,
        is_exception: false,
    };
    assert(r.db_data.id@ =~= occurrence_id(m.id@, separator@, t));
    r
}

/// The occurrences of the series `e` that become virtual instances of the window:
/// `kept_occurrences` of its generated occurrences followed by its RDATE instants in
/// `[start, end]`, without its EXDATE instants and the occurrences replaced by an
/// exception; or the first of its stored dates that does not parse (RDATE first).
fn series_occurrences(
    e: &EventDB,
    generated: &Vec<i64>,
    events: &Vec<EventDB>,
    start: i64,
    end: i64,
) -> (r: Result<Vec<i64>, DbError>)
    ensures
        match rdates_of(opt_strings_view(e.rdate), start, end) {
            Err(m) => r matches Err(DbError::ParseError(x)) && x@ == m,
            Ok(rd) => match exdates_of(opt_strings_view(e.exdate)) {
                Err(m) => r matches Err(DbError::ParseError(x)) && x@ == m,
                Ok(xd) => r matches Ok(v) && v@ == kept_occurrences(generated@ + rd, xd, events@, e.uid@),
            },
        },
{
    let rd = parse_rdates_in_window(&e.rdate, start, end)?;
    let xd = parse_exdates(&e.exdate)?;
    let ghost xs = exdates_of(opt_strings_view(e.exdate))->Ok_0;
    assert(xd@ == xs.to_set());
    let cand_vec = concat_instants(generated, &rd);
    let ghost cands = generated@ + rd@;
    let mut kept: Vec<i64> = Vec::new();
    let total = cand_vec.len();
    let mut j: usize = 0;
    while j < total
        invariant
            total == cand_vec.len(),
            cand_vec@ == cands,
            0 <= j <= total,
            xd@ == xs.to_set(),
            kept@ == kept_occurrences(cands.subrange(0, j as int), xs, events@, e.uid@),
        decreases total - j,
    {
        let t = cand_vec[j];
        assert(cands.subrange(0, j + 1).drop_last() =~= cands.subrange(0, j as int));
        assert(cands.subrange(0, j + 1).last() == t);
        if !xd.contains(&t) && !exception_exists(events, &e.uid, t) && !contains_instant(&kept, t) {
            kept.push(t);
        }
        j = j + 1;
    }
    assert(cands.subrange(0, total as int) =~= cands);
    Ok(kept)
}

/// The shown occurrences of the series keep their ends in range: for every series
/// reached before a parse error, each occurrence it shows, moved by the series'
/// duration, is an instant. (Moving an occurrence out of range is a panic in chrono.)
pub open spec fn shown_ends_in_range(events: Seq<EventDB>, exps: Seq<Option<Vec<i64>>>, start: i64, end: i64) -> bool {
    forall|i: int, t: i64|
        0 <= i < events.len() && first_error(events, exps, start, end, i) is None
            && events[i].dtend_time is Some
            && #[trigger] master_keys_of(events, exps, start, end, i).contains((i, Some(t), false))
            ==> instant_in_range(t + (events[i].dtend_time->0 - events[i].dtstart_time))
}

/// Whether `r` is the expansion of the window: the first parse error, or the instances
/// that `window_keys` describes, in its order.
pub open spec fn is_window_expansion(
    r: Result<Vec<EventSmall>, DbError>,
    events: Seq<EventDB>,
    exps: Seq<Option<Vec<i64>>>,
    start: i64,
    end: i64,
    separator: Seq<char>,
) -> bool {
    match first_error(events, exps, start, end, events.len() as int) {
        Some(m) => r matches Err(DbError::ParseError(e)) && e@ == m,
        None => r matches Ok(out) && out.len() == window_keys(events, exps, start, end).len()
            && forall|k: int|
            0 <= k < out.len() ==> instance_matches(
                #[trigger] out[k],
                events,
                window_keys(events, exps, start, end)[k],
                separator,
            ),
    }
}

/// Expands the stored events of a window into the events a calendar shows.
///
/// `expansions[i]` holds the occurrences that the recurrence rule of event `i`
/// generated for the window, or `None` where the event has no rule. Every master
/// (event without `recurrence_id`) gives its own instance when it has no rule;
/// otherwise every distinct instant among its generated occurrences and its RDATE
/// instants within `[start, end]` that is neither in its EXDATE list nor replaced by a
/// stored exception of the same series gives a virtual instance, identified by
/// `occurrence_id`. Then every exception that starts within `[start, end]` gives its
/// own instance. A stored date that does not parse is the error.
pub fn expand_events(
    events: &Vec<EventDB>,
    expansions: &Vec<Option<Vec<i64>>>,
    start: i64,
    end: i64,
    separator: &str,
) -> (r: Result<Vec<EventSmall>, DbError>)
    requires
        expansions.len() == events.len(),
        shown_ends_in_range(events@, expansions@, start, end),
    ensures
        is_window_expansion(r, events@, expansions@, start, end, separator@),
{
    let n = events.len();
    let mut out: Vec<EventSmall> = Vec::new();
    let mut i: usize = 0;
    while i < n
        invariant
            n == events.len(),
            expansions.len() == n,
            0 <= i <= n,
            shown_ends_in_range(events@, expansions@, start, end),
            first_error(events@, expansions@, start, end, i as int) is None,
            out.len() == master_keys(events@, expansions@, start, end, i as int).len(),
            forall|k: int|
                0 <= k < out.len() ==> instance_matches(
                    #[trigger] out[k],
                    events@,
                    master_keys(events@, expansions@, start, end, i as int)[k],
                    separator@,
                ),
        decreases n - i,
    {
        let e = &events[i];
        let ghost before = master_keys(events@, expansions@, start, end, i as int);
        let ghost base = out.len();
        if e.recurrence_id.is_none() {
            match &expansions[i] {
                None => {
                    out.push(single_instance_of(e));
                    proof {
                        assert(master_keys_of(events@, expansions@, start, end, i as int) =~= seq![(i as int, None::<i64>, false)]);
                        let after = master_keys(events@, expansions@, start, end, i + 1);
                        assert(after =~= before + seq![(i as int, None::<i64>, false)]);
                        assert forall|k: int| 0 <= k < out.len() implies instance_matches(
                            #[trigger] out[k], events@, after[k], separator@) by {
                            if k < base {
                                assert(after[k] == before[k]);
                            }
                        }
                    }
                },
                Some(generated) => {
                    let kept = match series_occurrences(e, generated, events, start, end) {
                        Ok(v) => v,
                        Err(err) => {
                            proof {
                                lemma_first_error_persists(events@, expansions@, start, end, i + 1, n as int);
                            }
                            return Err(err);
                        },
                    };
                    let ghost keys_i = master_keys_of(events@, expansions@, start, end, i as int);
                    assert(keys_i =~= kept@.map_values(|t: i64| (i as int, Some(t), false)));
                    let total = kept.len();
                    let mut j: usize = 0;
                    while j < total
                        invariant
                            n == events.len(),
                            expansions.len() == n,
                            0 <= i < n,
                            *e == events@[i as int],
                            total == kept.len(),
                            shown_ends_in_range(events@, expansions@, start, end),
                            first_error(events@, expansions@, start, end, i as int) is None,
                            keys_i == master_keys_of(events@, expansions@, start, end, i as int),
                            keys_i =~= kept@.map_values(|t: i64| (i as int, Some(t), false)),
                            0 <= j <= total,
                            base == before.len(),
                            out.len() == base + j,
                            forall|k: int|
                                0 <= k < base ==> instance_matches(#[trigger] out[k], events@, before[k], separator@),
                            forall|k: int|
                                0 <= k < j ==> is_virtual_instance(#[trigger] out[base + k], *e, kept[k], separator@),
                        decreases total - j,
                    {
                        let t = kept[j];
                        proof {
                            assert(keys_i[j as int] == (i as int, Some(t), false));
                            assert(keys_i.contains((i as int, Some(t), false)));
                        }
                        let inst = virtual_instance_of(e, t, separator);
                        let ghost old_out = out@;
                        out.push(inst);
                        proof {
                            assert forall|k: int| 0 <= k < base implies instance_matches(
                                #[trigger] out[k], events@, before[k], separator@) by {
                                assert(out[k] == old_out[k]);
                            }
                            assert forall|k: int| 0 <= k < j + 1 implies is_virtual_instance(
                                #[trigger] out[base + k], *e, kept[k], separator@) by {
                                if k < j {
                                    assert(out[base + k] == old_out[base + k]);
                                }
                            }
                        }
                        j = j + 1;
                    }
                    proof {
                        let after = master_keys(events@, expansions@, start, end, i + 1);
                        assert(after =~= before + keys_i);
                        assert forall|k: int| 0 <= k < out.len() implies instance_matches(
                            #[trigger] out[k], events@, after[k], separator@) by {
                            if k < base {
                                assert(after[k] == before[k]);
                            } else {
                                assert(after[k] == keys_i[k - base]);
                                assert(out[base + (k - base)] == out[k]);
                            }
                        }
                    }
                },
            }
        } else {
            proof {
                let after = master_keys(events@, expansions@, start, end, i + 1);
                assert(after =~= before);
            }
        }
        i = i + 1;
    }
    let ghost masters = master_keys(events@, expansions@, start, end, n as int);
    let mb = out.len();
    let mut i: usize = 0;
    while i < n
        invariant
            n == events.len(),
            0 <= i <= n,
            mb == masters.len(),
            out.len() == mb + exception_keys(events@, start, end, i as int).len(),
            forall|k: int|
                0 <= k < mb ==> instance_matches(#[trigger] out[k], events@, masters[k], separator@),
            forall|k: int|
                mb <= k < out.len() ==> instance_matches(
                    #[trigger] out[k],
                    events@,
                    exception_keys(events@, start, end, i as int)[k - mb],
                    separator@,
                ),
        decreases n - i,
    {
        let e = &events[i];
        let ghost before = exception_keys(events@, start, end, i as int);
        if e.recurrence_id.is_some() && e.dtstart_time >= start && e.dtstart_time <= end {
            let ghost old_out = out@;
            out.push(exception_instance_of(e));
            proof {
                let after = exception_keys(events@, start, end, i + 1);
                assert(after == before.push((i as int, None::<i64>, true)));
                assert forall|k: int| 0 <= k < mb implies instance_matches(
                    #[trigger] out[k], events@, masters[k], separator@) by {
                    assert(out[k] == old_out[k]);
                }
                assert forall|k: int| mb <= k < out.len() implies instance_matches(
                    #[trigger] out[k], events@, after[k - mb], separator@) by {
                    if k < out.len() - 1 {
                        assert(out[k] == old_out[k]);
                        assert(after[k - mb] == before[k - mb]);
                    }
                }
            }
        }
        i = i + 1;
    }
    proof {
        let all = window_keys(events@, expansions@, start, end);
        let exc = exception_keys(events@, start, end, n as int);
        assert forall|k: int| 0 <= k < out.len() implies instance_matches(
            #[trigger] out[k], events@, all[k], separator@) by {
            if k < mb {
                assert(all[k] == masters[k]);
            } else {
                assert(all[k] == exc[k - mb]);
            }
        }
    }
    Ok(out)
}

/// Whether every shown occurrence of the window stays an instant when moved by its
/// series' duration (see `shown_ends_in_range`).
fn shown_ends_fit(events: &Vec<EventDB>, expansions: &Vec<Option<Vec<i64>>>, start: i64, end: i64) -> (r: bool)
    requires
        expansions.len() == events.len(),
    ensures
        r == shown_ends_in_range(events@, expansions@, start, end),
{
    let n = events.len();
    let mut i: usize = 0;
    while i < n
        invariant
            n == events.len(),
            expansions.len() == n,
            0 <= i <= n,
            forall|q: int, t: i64|
                0 <= q < i && first_error(events@, expansions@, start, end, q) is None
                    && events@[q].dtend_time is Some
                    && #[trigger] master_keys_of(events@, expansions@, start, end, q).contains((q, Some(t), false))
                    ==> instant_in_range(t + (events@[q].dtend_time->0 - events@[q].dtstart_time)),
            first_error(events@, expansions@, start, end, i as int) is None,
        decreases n - i,
    {
        let e = &events[i];
        let ghost keys_i = master_keys_of(events@, expansions@, start, end, i as int);
        if e.recurrence_id.is_none() {
            if let Some(generated) = &expansions[i] {
                match series_occurrences(e, generated, events, start, end) {
                    Err(_) => {
                        proof {
                            assert forall|q: int, t: i64|
                                0 <= q < n && first_error(events@, expansions@, start, end, q) is None
                                    && events@[q].dtend_time is Some
                                    && #[trigger] master_keys_of(events@, expansions@, start, end, q).contains((q, Some(t), false))
                                implies instant_in_range(t + (events@[q].dtend_time->0 - events@[q].dtstart_time)) by {
                                if q > i {
                                    lemma_first_error_persists(events@, expansions@, start, end, i + 1, q);
                                }
                            }
                        }
                        return true;
                    },
                    Ok(kept) => {
                        assert(keys_i =~= kept@.map_values(|t: i64| (i as int, Some(t), false)));
                        if let Some(x) = e.dtend_time {
                            let d: i128 = x as i128 - e.dtstart_time as i128;
                            let mut j: usize = 0;
                            while j < kept.len()
                                invariant
                                    n == events.len(),
                                    0 <= i < n,
                                    0 <= j <= kept.len(),
                                    *e == events@[i as int],
                                    e.dtend_time == Some(x),
                                    d == x - e.dtstart_time,
                                    first_error(events@, expansions@, start, end, i as int) is None,
                                    keys_i == master_keys_of(events@, expansions@, start, end, i as int),
                                    keys_i =~= kept@.map_values(|t: i64| (i as int, Some(t), false)),
                                    forall|k: int| 0 <= k < j ==> instant_in_range(#[trigger] kept@[k] + d),
                                decreases kept.len() - j,
                            {
                                let moved: i128 = kept[j] as i128 + d;
                                if moved < -8334601315200000000i128 || moved > 8210266876799999999i128 {
                                    proof {
                                        assert(keys_i[j as int] == (i as int, Some(kept@[j as int]), false));
                                        assert(keys_i.contains((i as int, Some(kept@[j as int]), false)));
                                        assert(!instant_in_range(kept@[j as int] + (events@[i as int].dtend_time->0 - events@[i as int].dtstart_time)));
                                    }
                                    return false;
                                }
                                j = j + 1;
                            }
                            proof {
                                assert forall|t: i64| #[trigger] keys_i.contains((i as int, Some(t), false))
                                    implies instant_in_range(t + d) by {
                                    let w = choose|w: int| 0 <= w < keys_i.len() && keys_i[w] == (i as int, Some(t), false);
                                    assert(kept@[w] == t);
                                }
                            }
                        }
                    },
                }
            }
        }
        i = i + 1;
    }
    true
}

/// Expands a window as `expand_events` does, where every shown occurrence keeps its
/// end in range; `None` where moving one by its series' duration leaves the range of
/// instants (what chrono reports by panicking).
pub fn expand_window(
    events: &Vec<EventDB>,
    expansions: &Vec<Option<Vec<i64>>>,
    start: i64,
    end: i64,
    separator: &str,
) -> (r: Option<Result<Vec<EventSmall>, DbError>>)
    requires
        expansions.len() == events.len(),
    ensures
        r is None <==> !shown_ends_in_range(events@, expansions@, start, end),
        r matches Some(x) ==> is_window_expansion(x, events@, expansions@, start, end, separator@),
{
    if shown_ends_fit(events, expansions, start, end) {
        Some(expand_events(events, expansions, start, end, separator))
    } else {
        None
    }
}

} // verus!
