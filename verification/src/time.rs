//! Relative timestamps ("2m ago") for RFC 3339 times.
use vstd::prelude::*;

use crate::text::{dec_int, push_i64, push_str, string_from};

verus! {

/// A point in time: whole seconds since the Unix epoch and the sub-second
/// nanoseconds (up to `2_000_000_000` during a leap second).
#[derive(Debug, Clone, Copy, PartialEq, Eq)]
pub struct Timestamp {
    pub secs: i64,
    pub nanos: u32,
}

/// A parsed RFC 3339 time: its instant and its calendar date (`YYYY-MM-DD`)
/// in the time's own offset.
pub struct ParsedTime {
    pub secs: i64,
    pub nanos: u32,
    pub date: String,
}

/// What `chrono::DateTime::parse_from_rfc3339` makes of a string: `None`
/// when it rejects it, else the time's `timestamp()`,
/// `timestamp_subsec_nanos()` and `format("%Y-%m-%d")`.
pub uninterp spec fn rfc3339(s: Seq<char>) -> Option<(i64, u32, Seq<char>)>;

/// Calls `chrono::DateTime::parse_from_rfc3339`, then reads the parsed time's
/// `timestamp`, `timestamp_subsec_nanos` and `format("%Y-%m-%d")`. Claimed:
/// the result is `rfc3339(s)`, and the nanoseconds are below
/// `2_000_000_000` (chrono keeps sub-second nanoseconds below one second,
/// plus one more second for a leap second).
#[verifier::external_body]
fn parse_rfc3339(s: &str) -> (r: Option<ParsedTime>)
    ensures
        r is Some <==> rfc3339(s@) is Some,
        r matches Some(p) ==> rfc3339(s@) == Some((p.secs, p.nanos, p.date@)),
        r matches Some(p) ==> p.nanos < 2_000_000_000,
{
    chrono::DateTime::parse_from_rfc3339(s).ok().map(
        |t| ParsedTime {
            secs: t.timestamp(),
            nanos: t.timestamp_subsec_nanos(),
            date: t.format("%Y-%m-%d").to_string(),
        },
    )
}

/// Calls `chrono::Utc::now`. Claimed of the clock reading: only that its
/// nanoseconds are below `2_000_000_000`.
#[verifier::external_body]
fn current_time() -> (t: Timestamp)
    ensures
        t.nanos < 2_000_000_000,
{
    let n = chrono::Utc::now();
    Timestamp { secs: n.timestamp(), nanos: n.timestamp_subsec_nanos() }
}

/// Whole seconds from `(secs, nanos)` to `now`, truncated toward zero (what
/// chrono's `signed_duration_since(..).num_seconds()` gives).
pub open spec fn elapsed_secs(now: Timestamp, secs: int, nanos: int) -> int {
    let d = (now.secs - secs) * 1_000_000_000 + now.nanos - nanos;
    if d >= 0 {
        d / 1_000_000_000
    } else {
        -((-d) / 1_000_000_000)
    }
}

/// The bucketed label for an elapsed time: `just now` in the future, then
/// seconds, minutes, hours, days, and past thirty days the date itself.
pub open spec fn relative_label(secs: int, date: Seq<char>) -> Seq<char> {
    let mins = secs / 60;
    let hrs = mins / 60;
    let days = hrs / 24;
    if secs < 0 {
        "just now"@
    } else if secs < 60 {
        dec_int(secs) + "s ago"@
    } else if mins < 60 {
        dec_int(mins) + "m ago"@
    } else if hrs < 24 {
        dec_int(hrs) + "h ago"@
    } else if days < 30 {
        dec_int(days) + "d ago"@
    } else {
        date
    }
}

/// The relative rendering of the RFC 3339 string `s` at time `now`; a
/// string that does not parse is returned unchanged.
pub open spec fn relative_at(s: Seq<char>, now: Timestamp) -> Seq<char> {
    match rfc3339(s) {
        None => s,
        Some((ts, tn, date)) => relative_label(elapsed_secs(now, ts as int, tn as int), date),
    }
}

/// The relative label of a parsed time as seen at `now`: `just now` in the
/// future, then seconds, minutes, hours, days, and past thirty days the
/// time's date.
pub fn relative_label_of(t: ParsedTime, now: Timestamp) -> (r: String)
    requires
        now.nanos < 2_000_000_000,
        t.nanos < 2_000_000_000,
    ensures
        r@ == relative_label(elapsed_secs(now, t.secs as int, t.nanos as int), t.date@),
{
    let d: i128 = ((now.secs as i128) - (t.secs as i128)) * 1_000_000_000 + (now.nanos as i128) - (
    t.nanos as i128);
    let secs: i128 = if d >= 0 {
        d / 1_000_000_000
    } else {
        let m: i128 = 0 - d;
        let q: i128 = m / 1_000_000_000;
        0 - q
    };
    assert(secs == elapsed_secs(now, t.secs as int, t.nanos as int));
    let mut out = String::new();
    if secs < 0 {
        return string_from("just now");
    }
    if secs < 60 {
        push_i64(&mut out, secs as i64);
        push_str(&mut out, "s ago");
        return out;
    }
    let mins: i128 = secs / 60;
    if mins < 60 {
        push_i64(&mut out, mins as i64);
        push_str(&mut out, "m ago");
        return out;
    }
    let hrs: i128 = mins / 60;
    if hrs < 24 {
        push_i64(&mut out, hrs as i64);
        push_str(&mut out, "h ago");
        return out;
    }
    let days: i128 = hrs / 24;
    if days < 30 {
        push_i64(&mut out, days as i64);
        push_str(&mut out, "d ago");
        return out;
    }
    t.date
}

/// Render an RFC3339 timestamp as a short relative string ("2m ago") as
/// seen at `now`; a string that does not parse comes back unchanged.
pub fn relative_time_at(s: &str, now: Timestamp) -> (r: String)
    requires
        now.nanos < 2_000_000_000,
    ensures
        r@ == relative_at(s@, now),
{
    match parse_rfc3339(s) {
        None => string_from(s),
        Some(t) => relative_label_of(t, now),
    }
}

/// Render an RFC3339 timestamp as a short relative string ("2m ago"),
/// reading the clock. The clock reading is not known; what is known is
/// that the result is the rendering at some valid time.
pub fn relative_time(s: &str) -> (r: String)
    ensures
        exists|now: Timestamp| now.nanos < 2_000_000_000 && r@ == relative_at(s@, now),
{
    let now = current_time();
    let r = relative_time_at(s, now);
    assert(now.nanos < 2_000_000_000 && r@ == relative_at(s@, now));
    r
}

} // verus!
