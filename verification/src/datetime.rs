//! Instants in UTC, held as microseconds since the Unix epoch (the resolution of the
//! database's `timestamptz`), and the calls into `chrono` that parse and render them.
//! A parsed text with digits below the microsecond is cut to the microsecond.
use vstd::prelude::*;

verus! {

/// The earliest instant `chrono` represents (`DateTime::<Utc>::MIN_UTC`,
/// -262143-01-01T00:00:00Z), in microseconds since the epoch.
pub open spec fn min_instant() -> int {
    -8334601315200000000
}

/// The latest instant `chrono` represents (`DateTime::<Utc>::MAX_UTC`,
/// +262142-12-31T23:59:59.999999Z at microsecond resolution), in microseconds.
pub open spec fn max_instant() -> int {
    8210266876799999999
}

/// Whether `t` (microseconds since the epoch) is an instant `chrono` can represent.
pub open spec fn instant_in_range(t: int) -> bool {
    min_instant() <= t <= max_instant()
}

/// One second, in microseconds.
pub open spec fn one_second() -> int {
    1000000
}

/// The `strftime` pattern of an iCalendar UTC date-time, `%Y%m%dT%H%M%SZ`.
pub open spec fn ical_utc_pattern() -> Seq<char> {
    seq!['%', 'Y', '%', 'm', '%', 'd', 'T', '%', 'H', '%', 'M', '%', 'S', 'Z']
}

/// `%Y-%m-%d`, an ISO date.
pub open spec fn iso_date_pattern() -> Seq<char> {
    seq!['%', 'Y', '-', '%', 'm', '-', '%', 'd']
}

/// Whether `t` lies in the years 0000 to 9999, which RFC 3339 writes with four digits:
/// from 0000-01-01T00:00:00Z up to, not including, 10000-01-01T00:00:00Z.
pub open spec fn in_rfc3339_years(t: int) -> bool {
    -62167219200000000 <= t < 253402300800000000
}

/// Whether `c` is an ASCII digit.
pub open spec fn is_ascii_digit(c: char) -> bool {
    '0' <= c && c <= '9'
}

/// The `strftime` pattern of an RFC 3339 UTC date-time in whole seconds,
/// `%Y-%m-%dT%H:%M:%SZ`.
pub open spec fn iso_utc_pattern() -> Seq<char> {
    seq!['%', 'Y', '-', '%', 'm', '-', '%', 'd', 'T', '%', 'H', ':', '%', 'M', ':', '%', 'S', 'Z']
}

/// What `NaiveDate::parse_from_str(s, fmt)` yields, taken at midnight UTC and given in
/// microseconds; `None` where it fails.
pub uninterp spec fn naive_date_parse_from_str(s: Seq<char>, fmt: Seq<char>) -> Option<i64>;

/// What `DateTime::parse_from_rfc3339(s)` yields, as a UTC instant in microseconds;
/// `None` where it fails.
pub uninterp spec fn datetime_parse_from_rfc3339(s: Seq<char>) -> Option<i64>;

/// What `NaiveDateTime::parse_from_str(s, fmt)` yields, taken in UTC and given in
/// microseconds; `None` where it fails.
pub uninterp spec fn naive_datetime_parse_from_str(s: Seq<char>, fmt: Seq<char>) -> Option<i64>;

/// The text that `DateTime::<Utc>::format(fmt)` writes for the instant `t`.
pub uninterp spec fn datetime_format(t: int, fmt: Seq<char>) -> Seq<char>;

/// The text that `DateTime::<Utc>::to_rfc3339` writes for the instant `t`.
pub uninterp spec fn datetime_to_rfc3339(t: int) -> Seq<char>;

/// `chrono::NaiveDate::parse_from_str`, followed by `and_hms_opt(0, 0, 0)`, `and_utc` and
/// `timestamp_micros`. The contract names the result; every date `chrono` parses lies in
/// its range, so its midnight does too. What the parser accepts is not stated.
#[verifier::external_body]
pub(crate) fn parse_naive_date(s: &str, fmt: &str) -> (r: Option<i64>)
    ensures
        r == naive_date_parse_from_str(s@, fmt@),
        r matches Some(t) ==> instant_in_range(t as int),
{
    match chrono::NaiveDate::parse_from_str(s, fmt) {
        Ok(d) => Some(d.and_hms_opt(0, 0, 0).unwrap().and_utc().timestamp_micros()),
        Err(_) => None,
    }
}

/// `chrono::DateTime::parse_from_rfc3339`, converted to UTC microseconds. The contract
/// names the result and states that a parsed instant lies in `chrono`'s range.
#[verifier::external_body]
pub(crate) fn parse_rfc3339(s: &str) -> (r: Option<i64>)
    ensures
        r == datetime_parse_from_rfc3339(s@),
        r matches Some(t) ==> instant_in_range(t as int),
{
    match chrono::DateTime::parse_from_rfc3339(s) {
        Ok(dt) => Some(dt.with_timezone(&chrono::Utc).timestamp_micros()),
        Err(_) => None,
    }
}

/// `chrono::NaiveDateTime::parse_from_str` with the iCalendar UTC pattern, taken in UTC
/// (`and_utc`) and converted to microseconds. The contract names the result and states
/// that a parsed instant lies in `chrono`'s range: under this pattern an unsigned year
/// has at most four digits (a signed one takes the month's digits and fails), so even a
/// leap second, which chrono keeps as one more second of nanoseconds, stays far inside.
#[verifier::external_body]
pub(crate) fn parse_naive_datetime(s: &str, fmt: &str) -> (r: Option<i64>)
    requires
        fmt@ == ical_utc_pattern(),
    ensures
        r == naive_datetime_parse_from_str(s@, fmt@),
        r matches Some(t) ==> instant_in_range(t as int),
{
    match chrono::NaiveDateTime::parse_from_str(s, fmt) {
        Ok(dt) => Some(dt.and_utc().timestamp_micros()),
        Err(_) => None,
    }
}

/// `chrono::DateTime::<Utc>::from_timestamp_micros(t)` rendered with `format(fmt)`.
/// `from_timestamp_micros` succeeds on every instant in range, and both admitted
/// patterns hold only valid specifiers, so `to_string` does not fail. The contract names
/// the text and states what chrono's specifier table gives for the iCalendar pattern: it
/// writes digits, a year sign where needed, and the literal `T` and `Z`, so never a `;`.
#[verifier::external_body]
pub(crate) fn format_utc(t: i64, fmt: &str) -> (r: String)
    requires
        instant_in_range(t as int),
        fmt@ == ical_utc_pattern() || fmt@ == iso_utc_pattern(),
    ensures
        r@ == datetime_format(t as int, fmt@),
        fmt@ == ical_utc_pattern() ==> !r@.contains(';'),
{
    chrono::DateTime::from_timestamp_micros(t).unwrap().format(fmt).to_string()
}

/// `chrono::DateTime::<Utc>::from_timestamp_micros(t)` rendered with `to_rfc3339`.
/// The contract names the text and states what chrono's `write_rfc3339` and
/// `parse_rfc3339` show for the years 0000 to 9999: the text is
/// `YYYY-MM-DDTHH:MM:SS[.fraction]+00:00` (so it starts and ends with a digit, and
/// `NaiveDate::parse_from_str` with `%Y-%m-%d` rejects it for its trailing input), and
/// `DateTime::parse_from_rfc3339` reads it back as `t`. Other years are written with a
/// sign and five or more digits; nothing is stated of them.
#[verifier::external_body]
pub(crate) fn to_rfc3339(t: i64) -> (r: String)
    requires
        instant_in_range(t as int),
    ensures
        r@ == datetime_to_rfc3339(t as int),
        in_rfc3339_years(t as int) ==> {
            &&& datetime_parse_from_rfc3339(r@) == Some(t)
            &&& naive_date_parse_from_str(r@, iso_date_pattern()) is None
            &&& r@.len() > 0
            &&& is_ascii_digit(r@[0])
            &&& is_ascii_digit(r@.last())
        },
{
    chrono::DateTime::from_timestamp_micros(t).unwrap().to_rfc3339()
}

/// `chrono::Utc::now()` in microseconds. The clock decides the value; the contract
/// states only that it is an instant in `chrono`'s range.
#[verifier::external_body]
pub(crate) fn utc_now() -> (r: i64)
    ensures
        instant_in_range(r as int),
{
    chrono::Utc::now().timestamp_micros()
}

} // verus!
