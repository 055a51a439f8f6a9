use test_logger::classify::classify_line;
use test_logger::names::{log_file_names, log_file_names_now};
use test_logger::report::{render_csv_report, render_text_report};
use test_logger::session::{SessionLog, SessionMeta, Timestamp};

fn meta() -> SessionMeta {
    SessionMeta {
        test_operator: "Alice".to_string(),
        test_name: "MyApp".to_string(),
        software_version: "v1.2.3".to_string(),
        test_objective: "Smoke test".to_string(),
        participating_assets: "DeviceA".to_string(),
    }
}

fn ts(local: &str, utc: &str, secs: i64) -> Timestamp {
    Timestamp { local: local.to_string(), utc: utc.to_string(), secs }
}

fn smoke_session() -> SessionLog {
    let mut log = SessionLog::open(meta(), ts("2024-01-01 10:00:00", "2024-01-01 09:00:00", 1000));
    let (k1, t1, d1) = classify_line("bug: crash on boot");
    log.record(k1, t1, d1, ts("2024-01-01 10:00:05", "2024-01-01 09:00:05", 1005));
    let (k2, t2, d2) = classify_line("good: boots fine otherwise");
    log.record(k2, t2, d2, ts("2024-01-01 10:00:09", "2024-01-01 09:00:09", 1009));
    log.close(ts("2024-01-01 10:01:10", "2024-01-01 09:01:10", 1070));
    log
}

#[test]
fn text_report_has_the_exact_layout() {
    let log = smoke_session();
    let mut expected = String::new();
    expected.push_str("--- Test Session Started ---\n");
    expected.push_str("Test Name            : MyApp\n");
    expected.push_str("Software Version and Hash     : v1.2.3\n");
    expected.push_str("Test Objective       : Smoke test\n");
    expected.push_str("Test Operator        : Alice\n");
    expected.push_str("Participating Asset(s) : DeviceA\n");
    expected.push_str("Start Time           : 2024-01-01 10:00:00\n");
    expected.push_str("---------------------------------------\n");
    expected.push_str("\n");
    expected.push_str("--- Log Entries ---\n");
    expected.push_str(
        "[Local: 2024-01-01 10:00:00] [UTC: 2024-01-01 09:00:00] [TEST START]\t[NOTE]\tTest started\n",
    );
    expected.push_str(
        "[Local: 2024-01-01 10:00:05] [UTC: 2024-01-01 09:00:05] [OBSERVATION]\t[BUG]\tcrash on boot\n",
    );
    expected.push_str(
        "[Local: 2024-01-01 10:00:09] [UTC: 2024-01-01 09:00:09] [OBSERVATION]\t[GOOD]\tboots fine otherwise\n",
    );
    expected.push_str(
        "[Local: 2024-01-01 10:01:10] [UTC: 2024-01-01 09:01:10] [TEST END]\t[NOTE]\tTest session ended.\n",
    );
    expected.push_str("\n");
    expected.push_str("--- Test Session Ended ---\n");
    expected.push_str("End Time             : 2024-01-01 10:01:10\n");
    expected.push_str("Duration             : 1 minutes 10 seconds\n");
    expected.push_str("---------------------------------------\n");
    expected.push_str("Summary of Tags:\n");
    expected.push_str("BUG       : 1\n");
    expected.push_str("GOOD      : 1\n");
    expected.push_str("---------------------------------------\n");
    assert_eq!(render_text_report(&log), expected);
}

#[test]
fn csv_report_has_the_exact_layout() {
    let log = smoke_session();
    let mut expected = String::new();
    expected.push_str("Test Name,MyApp\n");
    expected.push_str("Software Version,v1.2.3\n");
    expected.push_str("Test Objective,Smoke test\n");
    expected.push_str("Test Operator,Alice\n");
    expected.push_str("Participating Asset(s),DeviceA\n");
    expected.push_str("Start Time,2024-01-01 10:00:00\n");
    expected.push_str("\n");
    expected.push_str("Local Time,UTC Time,Entry Type,Tag,Description\n");
    expected.push_str(
        "\"2024-01-01 10:00:00\",\"2024-01-01 09:00:00\",\"TEST START\",\"NOTE\",\"Test started\"\n",
    );
    expected.push_str(
        "\"2024-01-01 10:00:05\",\"2024-01-01 09:00:05\",\"OBSERVATION\",\"BUG\",\"crash on boot\"\n",
    );
    expected.push_str(
        "\"2024-01-01 10:00:09\",\"2024-01-01 09:00:09\",\"OBSERVATION\",\"GOOD\",\"boots fine otherwise\"\n",
    );
    expected.push_str(
        "\"2024-01-01 10:01:10\",\"2024-01-01 09:01:10\",\"TEST END\",\"NOTE\",\"Test session ended.\"\n",
    );
    expected.push_str("\n");
    expected.push_str("Summary Information\n");
    expected.push_str("End Time,2024-01-01 10:01:10\n");
    expected.push_str("Duration,1 minutes 10 seconds\n");
    expected.push_str("\n");
    expected.push_str("Tag,Count\n");
    expected.push_str("BUG,1\n");
    expected.push_str("GOOD,1\n");
    assert_eq!(render_csv_report(&log), expected);
}

#[test]
fn empty_session_reports_are_consistent() {
    let mut log = SessionLog::open(meta(), ts("2024-01-01 10:00:00", "2024-01-01 09:00:00", 1000));
    log.close(ts("2024-01-01 10:00:03", "2024-01-01 09:00:03", 1003));
    let text = render_text_report(&log);
    assert!(text.starts_with("--- Test Session Started ---\n"));
    assert!(text.contains("--- Log Entries ---\n"));
    assert!(text.contains("Duration             : 0 minutes 3 seconds\n"));
    // no tag occurred, so no line stands between the summary heading and the delimiter
    assert!(text.ends_with("Summary of Tags:\n---------------------------------------\n"));
    let csv = render_csv_report(&log);
    assert!(csv.ends_with("Tag,Count\n"));
    // exactly the two lifecycle entries appear as quoted rows
    assert_eq!(csv.lines().filter(|l| l.starts_with('"')).count(), 2);
}

#[test]
fn summary_is_sorted_by_tag_label() {
    let mut log = SessionLog::open(meta(), ts("a", "b", 0));
    for line in ["warn: w", "bug: b", "reload: v2", "fail: f"] {
        let (k, t, d) = classify_line(line);
        log.record(k, t, d, ts("a", "b", 1));
    }
    log.close(ts("a", "b", 2));
    let csv = render_csv_report(&log);
    let tail = csv.split("Tag,Count\n").nth(1).unwrap();
    assert_eq!(tail, "BUG,1\nFAIL,1\nVERSION,1\nWARN,1\n");
}

#[test]
fn counts_of_ten_or_more_render_in_full() {
    let mut log = SessionLog::open(meta(), ts("a", "b", 0));
    for _ in 0..12 {
        let (k, t, d) = classify_line("bug: again");
        log.record(k, t, d, ts("a", "b", 1));
    }
    log.close(ts("a", "b", 2));
    let text = render_text_report(&log);
    assert!(text.contains("BUG       : 12\n"));
    let csv = render_csv_report(&log);
    assert!(csv.contains("BUG,12\n"));
}

#[test]
fn negative_duration_renders_with_signs() {
    let mut log = SessionLog::open(meta(), ts("a", "b", 100));
    log.close(ts("a", "b", 30));
    let text = render_text_report(&log);
    assert!(text.contains("Duration             : -1 minutes -10 seconds\n"));
}

/// Strip the bracket/tab syntax of one text-report entry line.
fn reparse(line: &str) -> (String, String, String, String, String) {
    let rest = line.strip_prefix("[Local: ").unwrap();
    let (local, rest) = rest.split_once(']').unwrap();
    let rest = rest.strip_prefix(" [UTC: ").unwrap();
    let (utc, rest) = rest.split_once(']').unwrap();
    let rest = rest.strip_prefix(" [").unwrap();
    let (kind, rest) = rest.split_once(']').unwrap();
    let rest = rest.strip_prefix("\t[").unwrap();
    let (tag, rest) = rest.split_once(']').unwrap();
    let desc = rest.strip_prefix('\t').unwrap();
    (
        local.to_string(),
        utc.to_string(),
        kind.to_string(),
        tag.to_string(),
        desc.to_string(),
    )
}

#[test]
fn text_entry_lines_round_trip_to_the_csv_rows() {
    let log = smoke_session();
    let text = render_text_report(&log);
    let csv = render_csv_report(&log);
    let entry_lines: Vec<&str> = text
        .split("--- Log Entries ---\n")
        .nth(1)
        .unwrap()
        .split("\n\n")
        .next()
        .unwrap()
        .lines()
        .collect();
    let csv_rows: Vec<&str> = csv
        .split("Local Time,UTC Time,Entry Type,Tag,Description\n")
        .nth(1)
        .unwrap()
        .split("\n\n")
        .next()
        .unwrap()
        .lines()
        .collect();
    assert_eq!(entry_lines.len(), 4);
    assert_eq!(csv_rows.len(), 4);
    for (line, row) in entry_lines.iter().zip(csv_rows.iter()) {
        let (local, utc, kind, tag, desc) = reparse(line);
        let expected_row = format!(
            "\"{}\",\"{}\",\"{}\",\"{}\",\"{}\"",
            local, utc, kind, tag, desc
        );
        assert_eq!(*row, expected_row);
    }
}

#[test]
fn artifact_names_carry_the_stamp_and_underscored_test_name() {
    let (txt, csv) = log_file_names("20240101_120000", "My App Name");
    assert_eq!(txt, "20240101_120000_My_App_Name_log.txt");
    assert_eq!(csv, "20240101_120000_My_App_Name_log.csv");
}

#[test]
fn stamped_artifact_names_share_one_stem() {
    let (txt, csv) = log_file_names_now("My App");
    assert!(txt.ends_with("_My_App_log.txt"));
    assert!(csv.ends_with("_My_App_log.csv"));
    assert_eq!(txt.strip_suffix("txt").unwrap(), csv.strip_suffix("csv").unwrap());
    // the stamp has the shape YYYYMMDD_HHMMSS
    let stamp = &txt[..15];
    assert_eq!(stamp.len(), 15);
    assert_eq!(stamp.as_bytes()[8], b'_');
    assert!(stamp.chars().enumerate().all(|(i, c)| if i == 8 { c == '_' } else { c.is_ascii_digit() }));
}
