use testito::time::{relative_label_of, ParsedTime};
use testito::time::{relative_time, relative_time_at, Timestamp};

#[test]
fn relative_time_returns_input_for_unparseable() {
    assert_eq!(relative_time("not-a-date"), "not-a-date");
}

#[test]
fn relative_time_buckets() {
    let now = chrono::Utc::now();
    let cases = [
        (chrono::Duration::seconds(10), "s ago"),
        (chrono::Duration::minutes(3), "m ago"),
        (chrono::Duration::hours(2), "h ago"),
        (chrono::Duration::days(5), "d ago"),
    ];
    for (d, suffix) in cases {
        let t = now - d;
        let out = relative_time(&t.to_rfc3339());
        assert!(out.ends_with(suffix), "expected {suffix} suffix in {out}");
    }
}

#[test]
fn relative_time_far_past_is_yyyy_mm_dd() {
    let t = chrono::Utc::now() - chrono::Duration::days(120);
    let out = relative_time(&t.to_rfc3339());
    // Format YYYY-MM-DD
    assert_eq!(out.len(), 10);
    assert!(out.chars().nth(4) == Some('-') && out.chars().nth(7) == Some('-'));
}

#[test]
fn relative_time_future_is_just_now() {
    let t = chrono::Utc::now() + chrono::Duration::seconds(30);
    assert_eq!(relative_time(&t.to_rfc3339()), "just now");
}

fn at(secs: i64) -> Timestamp {
    Timestamp { secs, nanos: 0 }
}

#[test]
fn relative_time_at_exact_buckets() {
    // 2026-01-01T00:00:00Z is 1767225600.
    let t = "2026-01-01T00:00:00Z";
    let base = 1_767_225_600;
    assert_eq!(relative_time_at(t, at(base)), "0s ago");
    assert_eq!(relative_time_at(t, at(base + 59)), "59s ago");
    assert_eq!(relative_time_at(t, at(base + 60)), "1m ago");
    assert_eq!(relative_time_at(t, at(base + 3599)), "59m ago");
    assert_eq!(relative_time_at(t, at(base + 3600)), "1h ago");
    assert_eq!(relative_time_at(t, at(base + 86_399)), "23h ago");
    assert_eq!(relative_time_at(t, at(base + 86_400)), "1d ago");
    assert_eq!(relative_time_at(t, at(base + 29 * 86_400)), "29d ago");
    assert_eq!(relative_time_at(t, at(base + 30 * 86_400)), "2026-01-01");
    assert_eq!(relative_time_at(t, at(base - 1)), "just now");
}

#[test]
fn relative_time_at_truncates_toward_zero() {
    let t = "2026-01-01T00:00:00.5Z";
    let base = 1_767_225_600;
    // 0.6 s before the time: truncates to 0 seconds, not -1.
    assert_eq!(relative_time_at(t, Timestamp { secs: base - 1, nanos: 900_000_000 }), "0s ago");
    assert_eq!(relative_time_at(t, Timestamp { secs: base - 1, nanos: 400_000_000 }), "just now");
}

#[test]
fn relative_time_uses_the_times_own_offset_for_the_date() {
    let t = "2026-01-01T23:30:00-05:00";
    // far in the future: the date is printed in the -05:00 offset.
    assert_eq!(relative_time_at(t, at(2_000_000_000)), "2026-01-01");
}

#[test]
fn relative_label_of_a_parsed_time() {
    let t = ParsedTime { secs: 1_000, nanos: 0, date: "1970-01-01".to_string() };
    assert_eq!(relative_label_of(t, Timestamp { secs: 1_125, nanos: 0 }), "2m ago");
    let t = ParsedTime { secs: 1_000, nanos: 0, date: "1970-01-01".to_string() };
    assert_eq!(relative_label_of(t, Timestamp { secs: 999, nanos: 0 }), "just now");
    let t = ParsedTime { secs: 0, nanos: 0, date: "1970-01-01".to_string() };
    assert_eq!(relative_label_of(t, Timestamp { secs: 40 * 86_400, nanos: 0 }), "1970-01-01");
}
