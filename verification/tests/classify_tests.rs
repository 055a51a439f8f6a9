use test_logger::classify::{classify_line, interpret_line, parse_input, EntryKind, LineAction, Tag};

fn triple(k: &str, t: &str, d: &str) -> (String, String, String) {
    (k.to_string(), t.to_string(), d.to_string())
}

#[test]
fn classifies_bug_prefix() {
    assert_eq!(parse_input("bug: crash on boot"), triple("OBSERVATION", "BUG", "crash on boot"));
}

#[test]
fn classifies_warn_prefix() {
    assert_eq!(parse_input("warn: flaky sensor"), triple("OBSERVATION", "WARN", "flaky sensor"));
}

#[test]
fn classifies_good_prefix() {
    assert_eq!(parse_input("good: boots fine"), triple("OBSERVATION", "GOOD", "boots fine"));
}

#[test]
fn classifies_pass_prefix() {
    assert_eq!(parse_input("pass: case 12"), triple("OBSERVATION", "PASS", "case 12"));
}

#[test]
fn classifies_fail_prefix() {
    assert_eq!(parse_input("fail: case 13"), triple("OBSERVATION", "FAIL", "case 13"));
}

#[test]
fn classifies_reload_prefix() {
    assert_eq!(parse_input("reload: v2.0.1"), triple("RELOAD", "VERSION", "v2.0.1"));
}

#[test]
fn classifies_testcase_prefix() {
    assert_eq!(parse_input("testcase: boot sequence"), triple("TEST CASE", "NAME", "boot sequence"));
}

#[test]
fn prefix_matching_is_case_insensitive() {
    assert_eq!(parse_input("BUG: Crash"), triple("OBSERVATION", "BUG", "Crash"));
    assert_eq!(parse_input("Bug: Crash"), triple("OBSERVATION", "BUG", "Crash"));
    assert_eq!(parse_input("ReLoAd: v3"), triple("RELOAD", "VERSION", "v3"));
    assert_eq!(parse_input("TESTCASE: smoke"), triple("TEST CASE", "NAME", "smoke"));
}

#[test]
fn description_keeps_original_casing() {
    assert_eq!(parse_input("warn: MixedCase Text"), triple("OBSERVATION", "WARN", "MixedCase Text"));
}

#[test]
fn unrecognized_line_becomes_note() {
    assert_eq!(parse_input("just an observation"), triple("OBSERVATION", "NOTE", "just an observation"));
    assert_eq!(parse_input("debug: not a prefix"), triple("OBSERVATION", "NOTE", "debug: not a prefix"));
    assert_eq!(parse_input("bug without colon"), triple("OBSERVATION", "NOTE", "bug without colon"));
}

#[test]
fn surrounding_whitespace_is_trimmed() {
    assert_eq!(parse_input("  bug:   spaced out  "), triple("OBSERVATION", "BUG", "spaced out"));
    assert_eq!(parse_input("\t note \t"), triple("OBSERVATION", "NOTE", "note"));
}

#[test]
fn whitespace_only_remainder_yields_empty_description() {
    assert_eq!(parse_input("warn:    "), triple("OBSERVATION", "WARN", ""));
    assert_eq!(parse_input("testcase:"), triple("TEST CASE", "NAME", ""));
}

#[test]
fn trimming_is_idempotent_on_description() {
    let (_, _, once) = parse_input("  good:  all fine  ");
    let (_, _, twice) = parse_input(&format!("good: {}", once));
    assert_eq!(once, twice);
}

#[test]
fn classify_line_returns_typed_classification() {
    let (k, t, d) = classify_line("fail: timeout");
    assert_eq!(k, EntryKind::Observation);
    assert_eq!(t, Tag::Fail);
    assert_eq!(d, "timeout");
}

#[test]
fn blank_line_is_ignored() {
    assert!(matches!(interpret_line(""), LineAction::Ignore));
    assert!(matches!(interpret_line("   \t "), LineAction::Ignore));
}

#[test]
fn end_sentinel_finishes_the_session() {
    assert!(matches!(interpret_line("end"), LineAction::Finish));
    assert!(matches!(interpret_line("END"), LineAction::Finish));
    assert!(matches!(interpret_line("  End  "), LineAction::Finish));
}

#[test]
fn ordinary_line_is_logged() {
    match interpret_line("bug: broken") {
        LineAction::Log(k, t, d) => {
            assert_eq!(k, EntryKind::Observation);
            assert_eq!(t, Tag::Bug);
            assert_eq!(d, "broken");
        }
        _ => panic!("expected a logged entry"),
    }
}

#[test]
fn unicode_whitespace_is_trimmed_too() {
    assert_eq!(
        parse_input("\u{3000}bug:\u{a0}ideographic space\u{3000}"),
        triple("OBSERVATION", "BUG", "ideographic space")
    );
    assert!(matches!(interpret_line("\u{2028}\u{2029}"), LineAction::Ignore));
}

#[test]
fn end_embedded_in_text_is_not_the_sentinel() {
    assert!(matches!(interpret_line("ended"), LineAction::Log(..)));
    assert!(matches!(interpret_line("the end"), LineAction::Log(..)));
}
