use chrono::{DateTime, Local, NaiveDate, TimeZone, Utc};
use cosmic_scribe::time::{parse_recording_ts, relative_time_label, RecordingTs, WallClock};

fn clock(year: i32, month: u32, day: u32, hour: u32, minute: u32, second: u32, nanosecond: u32) -> WallClock {
    WallClock { year, month, day, hour, minute, second, nanosecond }
}

fn instant(ts: &RecordingTs) -> DateTime<Utc> {
    let c = &ts.clock;
    let naive = NaiveDate::from_ymd_opt(c.year, c.month, c.day)
        .unwrap()
        .and_hms_nano_opt(c.hour, c.minute, c.second, c.nanosecond)
        .unwrap();
    if ts.utc {
        return naive.and_utc();
    }
    Local
        .from_local_datetime(&naive)
        .single()
        .map(|l| l.with_timezone(&Utc))
        .unwrap_or_else(|| naive.and_utc())
}

fn relative_recording_time(ts: &str) -> String {
    let Some(p) = parse_recording_ts(ts) else {
        return ts.to_string();
    };
    let d = instant(&p);
    let mins = Utc::now().signed_duration_since(d).num_minutes();
    let local = d.with_timezone(&Local);
    let absolute = local.format("%b %-d, %-I:%M %p").to_string();
    let date = local.format("%b %-d, %Y").to_string();
    relative_time_label(mins, &absolute, &date)
}

#[test]
fn parses_human_local_ts() {
    let p = parse_recording_ts("2026-05-24 20:44:19").expect("parse");
    let d = instant(&p);
    let mins = Utc::now().signed_duration_since(d).num_minutes();
    assert!(mins > 60, "expected hours/days ago, got mins={mins}");
    let rel = relative_recording_time("2026-05-24 20:44:19");
    assert_ne!(rel, "just now");
}

#[test]
fn old_recordings_not_just_now() {
    let rel = relative_recording_time("2026-05-24 16:58:46");
    assert_ne!(rel, "just now");
    assert!(
        rel.contains("ago") || rel.contains("2026") || rel.contains("May"),
        "unexpected relative label: {rel}"
    );
}

#[test]
fn recording_timestamp_forms() {
    let local = |c: WallClock| Some(RecordingTs { clock: c, utc: false });
    assert_eq!(parse_recording_ts("2026-05-24 20:44:19"), local(clock(2026, 5, 24, 20, 44, 19, 0)));
    assert_eq!(parse_recording_ts("  2026-05-24T20:44:19\n"), local(clock(2026, 5, 24, 20, 44, 19, 0)));
    assert_eq!(parse_recording_ts("2026-05-24_20-44-19"), local(clock(2026, 5, 24, 20, 44, 19, 0)));
    assert_eq!(
        parse_recording_ts("2026-05-24 20:44:19.25"),
        local(clock(2026, 5, 24, 20, 44, 19, 250_000_000))
    );
    assert_eq!(
        parse_recording_ts("2026-05-24T22:44:19+02:00"),
        Some(RecordingTs { clock: clock(2026, 5, 24, 20, 44, 19, 0), utc: true })
    );
    assert_eq!(parse_recording_ts(""), None);
    assert_eq!(parse_recording_ts("yesterday"), None);
    assert_eq!(parse_recording_ts("2026-13-40 10:00:00"), None);
}

#[test]
fn relative_labels_by_elapsed_minutes() {
    let l = |m: i64| relative_time_label(m, "May 24, 8:44 PM", "May 24, 2026");
    assert_eq!(l(-1), "May 24, 8:44 PM");
    assert_eq!(l(0), "just now");
    assert_eq!(l(1), "1m ago");
    assert_eq!(l(59), "59m ago");
    assert_eq!(l(60), "1h ago");
    assert_eq!(l(1439), "23h ago");
    assert_eq!(l(1440), "1d ago");
    assert_eq!(l(29 * 1440), "29d ago");
    assert_eq!(l(30 * 1440), "4w ago");
    assert_eq!(l(34 * 1440 + 1439), "4w ago");
    assert_eq!(l(35 * 1440), "May 24, 2026");
}
