use test_logger::classify::{classify_line, EntryKind, Tag};
use test_logger::session::{elapsed_between, SessionLog, SessionMeta, Timestamp};

fn meta() -> SessionMeta {
    SessionMeta {
        test_operator: "Alice".to_string(),
        test_name: "MyApp".to_string(),
        software_version: "v1.2.3".to_string(),
        test_objective: "Smoke test".to_string(),
        participating_assets: "DeviceA".to_string(),
    }
}

fn ts(local: &str, utc: &str, secs: i64) -> Timestamp {
    Timestamp { local: local.to_string(), utc: utc.to_string(), secs }
}

#[test]
fn open_appends_the_start_marker() {
    let log = SessionLog::open(meta(), ts("2024-01-01 10:00:00", "2024-01-01 09:00:00", 1000));
    assert_eq!(log.entries.len(), 1);
    assert_eq!(log.entries[0].kind, EntryKind::TestStart);
    assert_eq!(log.entries[0].tag, Tag::Note);
    assert_eq!(log.entries[0].description, "Test started");
    assert_eq!(log.entries[0].local_time, "2024-01-01 10:00:00");
    assert_eq!(log.entries[0].utc_time, "2024-01-01 09:00:00");
    assert!(!log.closed);
}

#[test]
fn smoke_session_records_two_observations() {
    // the operator types `bug: crash on boot`, `good: boots fine otherwise`, `end`
    let mut log = SessionLog::open(meta(), ts("2024-01-01 10:00:00", "2024-01-01 09:00:00", 1000));
    let (k1, t1, d1) = classify_line("bug: crash on boot");
    log.record(k1, t1, d1, ts("2024-01-01 10:00:05", "2024-01-01 09:00:05", 1005));
    let (k2, t2, d2) = classify_line("good: boots fine otherwise");
    log.record(k2, t2, d2, ts("2024-01-01 10:00:09", "2024-01-01 09:00:09", 1009));
    log.close(ts("2024-01-01 10:01:10", "2024-01-01 09:01:10", 1070));

    assert_eq!(log.entries.len(), 4);
    assert_eq!(log.entries[0].kind, EntryKind::TestStart);
    assert_eq!(log.entries[1].kind, EntryKind::Observation);
    assert_eq!(log.entries[1].tag, Tag::Bug);
    assert_eq!(log.entries[1].description, "crash on boot");
    assert_eq!(log.entries[2].kind, EntryKind::Observation);
    assert_eq!(log.entries[2].tag, Tag::Good);
    assert_eq!(log.entries[2].description, "boots fine otherwise");
    assert_eq!(log.entries[3].kind, EntryKind::TestEnd);
    assert_eq!(log.entries[3].description, "Test session ended.");

    assert_eq!(log.counts.bug, 1);
    assert_eq!(log.counts.good, 1);
    assert_eq!(
        log.counts.warn + log.counts.pass + log.counts.fail + log.counts.note
            + log.counts.version + log.counts.name,
        0
    );
}

#[test]
fn immediate_end_leaves_only_the_markers() {
    // the operator types only `end`
    let mut log = SessionLog::open(meta(), ts("2024-01-01 10:00:00", "2024-01-01 09:00:00", 1000));
    log.close(ts("2024-01-01 10:00:03", "2024-01-01 09:00:03", 1003));
    assert_eq!(log.entries.len(), 2);
    assert_eq!(log.entries[0].kind, EntryKind::TestStart);
    assert_eq!(log.entries[1].kind, EntryKind::TestEnd);
    let c = log.counts;
    assert_eq!(
        c.bug + c.warn + c.good + c.pass + c.fail + c.note + c.version + c.name,
        0
    );
}

#[test]
fn blank_line_produces_no_entry() {
    // the operator presses enter, then types `warn: flaky sensor`, then `end`
    let mut log = SessionLog::open(meta(), ts("2024-01-01 10:00:00", "2024-01-01 09:00:00", 1000));
    match test_logger::classify::interpret_line("") {
        test_logger::classify::LineAction::Ignore => {}
        _ => panic!("a blank line must be ignored"),
    }
    let (k, t, d) = classify_line("warn: flaky sensor");
    log.record(k, t, d, ts("2024-01-01 10:00:04", "2024-01-01 09:00:04", 1004));
    log.close(ts("2024-01-01 10:00:08", "2024-01-01 09:00:08", 1008));
    assert_eq!(log.entries.len(), 3);
    assert_eq!(log.entries[1].tag, Tag::Warn);
    assert_eq!(log.counts.warn, 1);
}

#[test]
fn tally_total_matches_record_calls() {
    let mut log = SessionLog::open(meta(), ts("a", "b", 0));
    for i in 0..25i64 {
        let (k, t, d) = classify_line(if i % 2 == 0 { "bug: x" } else { "pass: y" });
        log.record(k, t, d, ts("a", "b", i));
    }
    log.close(ts("a", "b", 30));
    let c = log.counts;
    let total = c.bug + c.warn + c.good + c.pass + c.fail + c.note + c.version + c.name;
    assert_eq!(total, 25);
    assert_eq!(log.entries.len(), 2 + 25);
    assert_eq!(c.bug, 13);
    assert_eq!(c.pass, 12);
}

#[test]
fn note_records_count_toward_the_tally() {
    // lifecycle entries are excluded, recorded NOTE entries are not
    let mut log = SessionLog::open(meta(), ts("a", "b", 0));
    let (k, t, d) = classify_line("plain observation");
    log.record(k, t, d, ts("a", "b", 1));
    log.close(ts("a", "b", 2));
    assert_eq!(log.counts.note, 1);
    assert_eq!(log.entries.len(), 3);
}

#[test]
fn duration_is_the_wall_clock_difference() {
    let mut log = SessionLog::open(meta(), ts("a", "b", 1_700_000_000));
    let d = log.close(ts("a", "b", 1_700_000_125));
    assert_eq!(d.minutes, 2);
    assert_eq!(d.seconds, 5);
    assert_eq!(d.minutes * 60 + d.seconds, 125);
}

#[test]
fn duration_of_an_instant_session_is_zero() {
    let d = elapsed_between(500, 500);
    assert_eq!(d.minutes, 0);
    assert_eq!(d.seconds, 0);
}

#[test]
fn duration_truncates_toward_zero_when_the_clock_goes_back() {
    let d = elapsed_between(100, 30);
    assert_eq!(d.minutes, -1);
    assert_eq!(d.seconds, -10);
}

#[test]
fn exact_whole_minutes_leave_no_remainder_seconds() {
    let d = elapsed_between(0, 3600);
    assert_eq!(d.minutes, 60);
    assert_eq!(d.seconds, 0);
}
