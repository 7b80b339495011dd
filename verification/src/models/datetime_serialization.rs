//! The text form of instants in request and response bodies: written as
//! `YYYY-MM-DDTHH:MM:SSZ`, read back from any RFC 3339 date-time.
use vstd::prelude::*;

use crate::datetime::{datetime_format, datetime_parse_from_rfc3339, format_utc, instant_in_range, iso_utc_pattern, parse_rfc3339};

verus! {

/// The text of the instant `t` (microseconds since the epoch): its UTC date and time in
/// whole seconds, `%Y-%m-%dT%H:%M:%SZ`.
pub fn format_instant(t: i64) -> (r: String)
    requires
        instant_in_range(t as int),
    ensures
        r@ == datetime_format(t as int, iso_utc_pattern()),
{
    proof {
        reveal_strlit("%Y-%m-%dT%H:%M:%SZ");
        assert("%Y-%m-%dT%H:%M:%SZ"@ =~= iso_utc_pattern());
    }
    format_utc(t, "%Y-%m-%dT%H:%M:%SZ")
}

/// The instant an RFC 3339 text names, in UTC; `None` where it is not RFC 3339.
pub fn parse_instant(s: &str) -> (r: Option<i64>)
    ensures
        r == datetime_parse_from_rfc3339(s@),
        r matches Some(t) ==> instant_in_range(t as int),
{
    parse_rfc3339(s)
}

} // verus!
