//! The two report renderers: one human-readable text layout and one tabular
//! layout, both pure functions of the closed session log, reflecting exactly
//! the same entries and tag counts.

use vstd::prelude::*;

use crate::classify::{kind_label, kind_text, tag_label, tag_text, EntryKind, Tag};
use crate::session::{
    elapsed_minutes, elapsed_seconds, LogEntry, SessionLog, TagCounts,
};

verus! {

/// The decimal digit character for `n` in 0..=9.
pub open spec fn dec_digit(n: int) -> char {
    if n == 0 {
        '0'
    } else if n == 1 {
        '1'
    } else if n == 2 {
        '2'
    } else if n == 3 {
        '3'
    } else if n == 4 {
        '4'
    } else if n == 5 {
        '5'
    } else if n == 6 {
        '6'
    } else if n == 7 {
        '7'
    } else if n == 8 {
        '8'
    } else {
        '9'
    }
}

/// The decimal numeral of a non-negative `n`, without sign or padding.
pub open spec fn dec_str(n: int) -> Seq<char>
    decreases n,
{
    if n < 10 {
        seq![dec_digit(n)]
    } else {
        dec_str(n / 10).push(dec_digit(n % 10))
    }
}

/// The decimal numeral of `n`, with a leading minus sign when negative.
pub open spec fn int_str(n: int) -> Seq<char> {
    if n < 0 {
        seq!['-'] + dec_str(-n)
    } else {
        dec_str(n)
    }
}

fn digit_str(d: u64) -> (r: &'static str)
    requires
        d < 10,
    ensures
        r@ == seq![dec_digit(d as int)],
{
    proof {
        reveal_strlit("0");
        reveal_strlit("1");
        reveal_strlit("2");
        reveal_strlit("3");
        reveal_strlit("4");
        reveal_strlit("5");
        reveal_strlit("6");
        reveal_strlit("7");
        reveal_strlit("8");
        reveal_strlit("9");
    }
    let r = match d {
        0 => "0",
        1 => "1",
        2 => "2",
        3 => "3",
        4 => "4",
        5 => "5",
        6 => "6",
        7 => "7",
        8 => "8",
        _ => "9",
    };
    proof {
        assert(r@ =~= seq![dec_digit(d as int)]);
    }
    r
}

/// The decimal numeral of `n` as a string.
pub fn u64_dec(n: u64) -> (r: String)
    ensures
        r@ == dec_str(n as int),
    decreases n,
{
    if n < 10 {
        digit_str(n).to_owned()
    } else {
        let mut s = u64_dec(n / 10);
        s.append(digit_str(n % 10));
        proof {
            assert(s@ =~= dec_str(n as int));
        }
        s
    }
}

/// The decimal numeral of `n` as a string, signed.
pub fn i64_dec(n: i64) -> (r: String)
    ensures
        r@ == int_str(n as int),
{
    proof {
        reveal_strlit("-");
    }
    if n >= 0 {
        u64_dec(n as u64)
    } else {
        let p: u64 = (-(n as i128)) as u64;
        let mut s = "-".to_owned();
        s.append(u64_dec(p).as_str());
        proof {
            assert(s@ =~= int_str(n as int));
        }
        s
    }
}

/// `n` space characters.
pub open spec fn spaces(n: nat) -> Seq<char>
    decreases n,
{
    if n == 0 {
        Seq::<char>::empty()
    } else {
        spaces((n - 1) as nat).push(' ')
    }
}

/// `s` padded on the right with spaces to at least width `w`.
pub open spec fn pad_right(s: Seq<char>, w: nat) -> Seq<char> {
    if s.len() >= w {
        s
    } else {
        s + spaces((w - s.len()) as nat)
    }
}

proof fn lemma_spaces_len(n: nat)
    ensures
        spaces(n).len() == n,
    decreases n,
{
    if n > 0 {
        lemma_spaces_len((n - 1) as nat);
    }
}

/// The tag label padded to the summary's minimum field width.
fn padded_tag(t: Tag) -> (r: String)
    ensures
        r@ == pad_right(tag_label(t), 10),
{
    let mut s = tag_text(t).to_owned();
    let ghost lbl = tag_label(t);
    proof {
        assert(s@ == lbl + spaces(0)) by {
            assert(lbl + spaces(0) =~= lbl);
        }
        lemma_tag_label_short(t);
    }
    while s.as_str().unicode_len() < 10
        invariant
            tag_label(t).len() <= s@.len() <= 10,
            s@ == tag_label(t) + spaces((s@.len() - tag_label(t).len()) as nat),
        decreases 10 - s@.len(),
    {
        s.append(" ");
        proof {
            reveal_strlit(" ");
            let k = (s@.len() - tag_label(t).len()) as nat;
            lemma_spaces_len(k);
            assert(s@ =~= tag_label(t) + spaces(k));
        }
    }
    proof {
        lemma_spaces_len((10 - tag_label(t).len()) as nat);
    }
    s
}

proof fn lemma_tag_label_short(t: Tag)
    ensures
        1 <= tag_label(t).len() <= 10,
{
    reveal_strlit("BUG");
    reveal_strlit("WARN");
    reveal_strlit("GOOD");
    reveal_strlit("PASS");
    reveal_strlit("FAIL");
    reveal_strlit("NOTE");
    reveal_strlit("VERSION");
    reveal_strlit("NAME");
}

/// The phrase in which both reports state the session duration.
#[verifier::opaque]
pub open spec fn duration_phrase(m: int, s: int) -> Seq<char> {
    int_str(m) + " minutes "@ + int_str(s) + " seconds"@
}

fn push_duration_phrase(out: &mut String, m: i64, s: i64)
    ensures
        final(out)@ == old(out)@ + duration_phrase(m as int, s as int),
{
    out.append(i64_dec(m).as_str());
    out.append(" minutes ");
    out.append(i64_dec(s).as_str());
    out.append(" seconds");
    proof {
        reveal(duration_phrase);
        assert(out@ =~= old(out)@ + duration_phrase(m as int, s as int));
    }
}

/// One entry as it appears in the text report, without the line break.
pub open spec fn entry_line_body(e: LogEntry) -> Seq<char> {
    "[Local: "@ + e.local_time@ + "] [UTC: "@ + e.utc_time@ + "] ["@ + kind_label(e.kind) + "]\t["@
        + tag_label(e.tag) + "]\t"@ + e.description@
}

/// One entry line of the text report.
pub open spec fn entry_line(e: LogEntry) -> Seq<char> {
    entry_line_body(e) + "\n"@
}

/// The text report's entry lines, in stored order.
pub open spec fn entry_lines(es: Seq<LogEntry>) -> Seq<char>
    decreases es.len(),
{
    if es.len() == 0 {
        Seq::<char>::empty()
    } else {
        entry_lines(es.drop_last()) + entry_line(es.last())
    }
}

fn push_entry_line(out: &mut String, e: &LogEntry)
    ensures
        final(out)@ == old(out)@ + entry_line(*e),
{
    out.append("[Local: ");
    out.append(e.local_time.as_str());
    out.append("] [UTC: ");
    out.append(e.utc_time.as_str());
    out.append("] [");
    out.append(kind_text(e.kind));
    out.append("]\t[");
    out.append(tag_text(e.tag));
    out.append("]\t");
    out.append(e.description.as_str());
    out.append("\n");
    proof {
        assert(out@ =~= old(out)@ + entry_line(*e));
    }
}

/// One tag's line in the text summary, present only when its count is
/// positive: the label padded to the minimum field width, a colon, the count.
#[verifier::opaque]
pub open spec fn text_tag_entry(t: Tag, c: u64) -> Seq<char> {
    if c > 0 {
        pad_right(tag_label(t), 10) + ": "@ + dec_str(c as int) + "\n"@
    } else {
        Seq::<char>::empty()
    }
}

/// The text summary block: one line per tag that occurred, sorted by tag
/// label.
#[verifier::opaque]
pub open spec fn text_tag_block(c: TagCounts) -> Seq<char> {
    text_tag_entry(Tag::Bug, c.bug) + text_tag_entry(Tag::Fail, c.fail) + text_tag_entry(
        Tag::Good,
        c.good,
    ) + text_tag_entry(Tag::Name, c.name) + text_tag_entry(Tag::Note, c.note) + text_tag_entry(
        Tag::Pass,
        c.pass,
    ) + text_tag_entry(Tag::Version, c.version) + text_tag_entry(Tag::Warn, c.warn)
}

fn push_text_tag_entry(out: &mut String, t: Tag, c: u64)
    ensures
        final(out)@ == old(out)@ + text_tag_entry(t, c),
{
    proof {
        reveal(text_tag_entry);
    }
    if c > 0 {
        out.append(padded_tag(t).as_str());
        out.append(": ");
        out.append(u64_dec(c).as_str());
        out.append("\n");
        proof {
            assert(out@ =~= old(out)@ + text_tag_entry(t, c));
        }
    } else {
        proof {
            assert(old(out)@ + text_tag_entry(t, c) =~= old(out)@);
        }
    }
}

/// The header block of the text report, up to and including the entry-list
/// heading.
pub open spec fn text_header(log: SessionLog) -> Seq<char> {
    "--- Test Session Started ---\n"@ + "Test Name            : "@ + log.meta.test_name@ + "\n"@
        + "Software Version and Hash     : "@ + log.meta.software_version@ + "\n"@
        + "Test Objective       : "@ + log.meta.test_objective@ + "\n"@
        + "Test Operator        : "@ + log.meta.test_operator@ + "\n"@
        + "Participating Asset(s) : "@ + log.meta.participating_assets@ + "\n"@
        + "Start Time           : "@ + log.entries@[0].local_time@ + "\n"@
        + "---------------------------------------\n\n"@ + "--- Log Entries ---\n"@
}

/// The footer of the text report: the session-end delimiter, end time,
/// duration, and the tag summary.
pub open spec fn text_footer(log: SessionLog) -> Seq<char> {
    "\n--- Test Session Ended ---\n"@ + "End Time             : "@
        + log.entries@.last().local_time@ + "\n"@ + "Duration             : "@ + duration_phrase(
        elapsed_minutes(log.end_secs - log.start_secs),
        elapsed_seconds(log.end_secs - log.start_secs),
    ) + "\n"@ + "---------------------------------------\n"@ + "Summary of Tags:\n"@
        + text_tag_block(log.counts) + "---------------------------------------\n"@
}

/// The whole text report for a closed session log.
pub open spec fn text_report(log: SessionLog) -> Seq<char> {
    text_header(log) + entry_lines(log.entries@) + text_footer(log)
}

fn push_text_header(out: &mut String, log: &SessionLog)
    requires
        log.wf(),
    ensures
        final(out)@ == old(out)@ + text_header(*log),
{
    out.append("--- Test Session Started ---\n");
    out.append("Test Name            : ");
    out.append(log.meta.test_name.as_str());
    out.append("\n");
    out.append("Software Version and Hash     : ");
    out.append(log.meta.software_version.as_str());
    out.append("\n");
    out.append("Test Objective       : ");
    out.append(log.meta.test_objective.as_str());
    out.append("\n");
    out.append("Test Operator        : ");
    out.append(log.meta.test_operator.as_str());
    out.append("\n");
    out.append("Participating Asset(s) : ");
    out.append(log.meta.participating_assets.as_str());
    out.append("\n");
    out.append("Start Time           : ");
    out.append(log.entries[0].local_time.as_str());
    out.append("\n");
    out.append("---------------------------------------\n\n");
    out.append("--- Log Entries ---\n");
    proof {
        assert(out@ =~= old(out)@ + text_header(*log));
    }
}

fn push_text_tag_block(out: &mut String, c: TagCounts)
    ensures
        final(out)@ == old(out)@ + text_tag_block(c),
{
    push_text_tag_entry(&mut *out, Tag::Bug, c.bug);
    push_text_tag_entry(&mut *out, Tag::Fail, c.fail);
    push_text_tag_entry(&mut *out, Tag::Good, c.good);
    push_text_tag_entry(&mut *out, Tag::Name, c.name);
    push_text_tag_entry(&mut *out, Tag::Note, c.note);
    push_text_tag_entry(&mut *out, Tag::Pass, c.pass);
    push_text_tag_entry(&mut *out, Tag::Version, c.version);
    push_text_tag_entry(&mut *out, Tag::Warn, c.warn);
    proof {
        reveal(text_tag_block);
        assert(out@ =~= old(out)@ + text_tag_block(c));
    }
}

fn push_text_footer(out: &mut String, log: &SessionLog)
    requires
        log.wf(),
        log.closed,
    ensures
        final(out)@ == old(out)@ + text_footer(*log),
{
    let n = log.entries.len();
    out.append("\n--- Test Session Ended ---\n");
    out.append("End Time             : ");
    out.append(log.entries[n - 1].local_time.as_str());
    out.append("\n");
    out.append("Duration             : ");
    let d = crate::session::elapsed_between(log.start_secs, log.end_secs);
    push_duration_phrase(&mut *out, d.minutes, d.seconds);
    out.append("\n");
    out.append("---------------------------------------\n");
    out.append("Summary of Tags:\n");
    push_text_tag_block(&mut *out, log.counts);
    out.append("---------------------------------------\n");
    proof {
        assert(log.entries@.last() == log.entries@[n - 1]);
        assert(out@ =~= old(out)@ + text_footer(*log));
    }
}

/// Render the human-readable text report of a closed session log.
pub fn render_text_report(log: &SessionLog) -> (r: String)
    requires
        log.wf(),
        log.closed,
    ensures
        r@ == text_report(*log),
{
    let mut out = String::new();
    push_text_header(&mut out, log);
    let n = log.entries.len();
    let mut i: usize = 0;
    while i < n
        invariant
            0 <= i <= n,
            n == log.entries@.len(),
            out@ == text_header(*log) + entry_lines(log.entries@.take(i as int)),
        decreases n - i,
    {
        push_entry_line(&mut out, &log.entries[i]);
        proof {
            let es = log.entries@;
            assert(es.take(i + 1).drop_last() =~= es.take(i as int));
            assert(es.take(i + 1).last() == es[i as int]);
            assert(out@ =~= text_header(*log) + entry_lines(es.take(i + 1)));
        }
        i = i + 1;
    }
    proof {
        assert(log.entries@.take(n as int) =~= log.entries@);
    }
    push_text_footer(&mut out, log);
    out
}

/// One entry as a row of the tabular report: the same five fields as the text
/// entry line, each wrapped in double quotes. The field data is assumed not
/// to contain embedded double quotes or the separator; no escaping is
/// applied.
pub open spec fn csv_row(e: LogEntry) -> Seq<char> {
    "\""@ + e.local_time@ + "\",\""@ + e.utc_time@ + "\",\""@ + kind_label(e.kind) + "\",\""@
        + tag_label(e.tag) + "\",\""@ + e.description@ + "\"\n"@
}

/// The tabular report's entry rows, in stored order.
pub open spec fn csv_rows(es: Seq<LogEntry>) -> Seq<char>
    decreases es.len(),
{
    if es.len() == 0 {
        Seq::<char>::empty()
    } else {
        csv_rows(es.drop_last()) + csv_row(es.last())
    }
}

fn push_csv_row(out: &mut String, e: &LogEntry)
    ensures
        final(out)@ == old(out)@ + csv_row(*e),
{
    out.append("\"");
    out.append(e.local_time.as_str());
    out.append("\",\"");
    out.append(e.utc_time.as_str());
    out.append("\",\"");
    out.append(kind_text(e.kind));
    out.append("\",\"");
    out.append(tag_text(e.tag));
    out.append("\",\"");
    out.append(e.description.as_str());
    out.append("\"\n");
    proof {
        assert(out@ =~= old(out)@ + csv_row(*e));
    }
}

/// One tag's row in the tabular summary, present only when its count is
/// positive.
#[verifier::opaque]
pub open spec fn csv_tag_entry(t: Tag, c: u64) -> Seq<char> {
    if c > 0 {
        tag_label(t) + ","@ + dec_str(c as int) + "\n"@
    } else {
        Seq::<char>::empty()
    }
}

/// The tabular summary block: one row per tag that occurred, sorted by tag
/// label.
#[verifier::opaque]
pub open spec fn csv_tag_block(c: TagCounts) -> Seq<char> {
    csv_tag_entry(Tag::Bug, c.bug) + csv_tag_entry(Tag::Fail, c.fail) + csv_tag_entry(
        Tag::Good,
        c.good,
    ) + csv_tag_entry(Tag::Name, c.name) + csv_tag_entry(Tag::Note, c.note) + csv_tag_entry(
        Tag::Pass,
        c.pass,
    ) + csv_tag_entry(Tag::Version, c.version) + csv_tag_entry(Tag::Warn, c.warn)
}

fn push_csv_tag_entry(out: &mut String, t: Tag, c: u64)
    ensures
        final(out)@ == old(out)@ + csv_tag_entry(t, c),
{
    proof {
        reveal(csv_tag_entry);
    }
    if c > 0 {
        out.append(tag_text(t));
        out.append(",");
        out.append(u64_dec(c).as_str());
        out.append("\n");
        proof {
            assert(out@ =~= old(out)@ + csv_tag_entry(t, c));
        }
    } else {
        proof {
            assert(old(out)@ + csv_tag_entry(t, c) =~= old(out)@);
        }
    }
}

fn push_csv_tag_block(out: &mut String, c: TagCounts)
    ensures
        final(out)@ == old(out)@ + csv_tag_block(c),
{
    push_csv_tag_entry(&mut *out, Tag::Bug, c.bug);
    push_csv_tag_entry(&mut *out, Tag::Fail, c.fail);
    push_csv_tag_entry(&mut *out, Tag::Good, c.good);
    push_csv_tag_entry(&mut *out, Tag::Name, c.name);
    push_csv_tag_entry(&mut *out, Tag::Note, c.note);
    push_csv_tag_entry(&mut *out, Tag::Pass, c.pass);
    push_csv_tag_entry(&mut *out, Tag::Version, c.version);
    push_csv_tag_entry(&mut *out, Tag::Warn, c.warn);
    proof {
        reveal(csv_tag_block);
        assert(out@ =~= old(out)@ + csv_tag_block(c));
    }
}

/// The header block of the tabular report: unquoted `label,value` metadata
/// pairs, a blank separator line, and the column header row.
pub open spec fn csv_header(log: SessionLog) -> Seq<char> {
    "Test Name,"@ + log.meta.test_name@ + "\n"@ + "Software Version,"@
        + log.meta.software_version@ + "\n"@ + "Test Objective,"@ + log.meta.test_objective@
        + "\n"@ + "Test Operator,"@ + log.meta.test_operator@ + "\n"@
        + "Participating Asset(s),"@ + log.meta.participating_assets@ + "\n"@ + "Start Time,"@
        + log.entries@[0].local_time@ + "\n"@ + "\n"@
        + "Local Time,UTC Time,Entry Type,Tag,Description\n"@
}

/// The footer of the tabular report: the summary block and the tag-count
/// rows.
pub open spec fn csv_footer(log: SessionLog) -> Seq<char> {
    "\n"@ + "Summary Information\n"@ + "End Time,"@ + log.entries@.last().local_time@ + "\n"@
        + "Duration,"@ + duration_phrase(
        elapsed_minutes(log.end_secs - log.start_secs),
        elapsed_seconds(log.end_secs - log.start_secs),
    ) + "\n"@ + "\n"@ + "Tag,Count\n"@ + csv_tag_block(log.counts)
}

/// The whole tabular report for a closed session log.
pub open spec fn csv_report(log: SessionLog) -> Seq<char> {
    csv_header(log) + csv_rows(log.entries@) + csv_footer(log)
}

fn push_csv_header(out: &mut String, log: &SessionLog)
    requires
        log.wf(),
    ensures
        final(out)@ == old(out)@ + csv_header(*log),
{
    out.append("Test Name,");
    out.append(log.meta.test_name.as_str());
    out.append("\n");
    out.append("Software Version,");
    out.append(log.meta.software_version.as_str());
    out.append("\n");
    out.append("Test Objective,");
    out.append(log.meta.test_objective.as_str());
    out.append("\n");
    out.append("Test Operator,");
    out.append(log.meta.test_operator.as_str());
    out.append("\n");
    out.append("Participating Asset(s),");
    out.append(log.meta.participating_assets.as_str());
    out.append("\n");
    out.append("Start Time,");
    out.append(log.entries[0].local_time.as_str());
    out.append("\n");
    out.append("\n");
    out.append("Local Time,UTC Time,Entry Type,Tag,Description\n");
    proof {
        assert(out@ =~= old(out)@ + csv_header(*log));
    }
}

fn push_csv_footer(out: &mut String, log: &SessionLog)
    requires
        log.wf(),
        log.closed,
    ensures
        final(out)@ == old(out)@ + csv_footer(*log),
{
    let n = log.entries.len();
    out.append("\n");
    out.append("Summary Information\n");
    out.append("End Time,");
    out.append(log.entries[n - 1].local_time.as_str());
    out.append("\n");
    out.append("Duration,");
    let d = crate::session::elapsed_between(log.start_secs, log.end_secs);
    push_duration_phrase(&mut *out, d.minutes, d.seconds);
    out.append("\n");
    out.append("\n");
    out.append("Tag,Count\n");
    push_csv_tag_block(&mut *out, log.counts);
    proof {
        assert(log.entries@.last() == log.entries@[n - 1]);
        assert(out@ =~= old(out)@ + csv_footer(*log));
    }
}

/// Render the machine-readable tabular report of a closed session log.
pub fn render_csv_report(log: &SessionLog) -> (r: String)
    requires
        log.wf(),
        log.closed,
    ensures
        r@ == csv_report(*log),
{
    let mut out = String::new();
    push_csv_header(&mut out, log);
    let n = log.entries.len();
    let mut i: usize = 0;
    while i < n
        invariant
            0 <= i <= n,
            n == log.entries@.len(),
            out@ == csv_header(*log) + csv_rows(log.entries@.take(i as int)),
        decreases n - i,
    {
        push_csv_row(&mut out, &log.entries[i]);
        proof {
            let es = log.entries@;
            assert(es.take(i + 1).drop_last() =~= es.take(i as int));
            assert(es.take(i + 1).last() == es[i as int]);
            assert(out@ =~= csv_header(*log) + csv_rows(es.take(i + 1)));
        }
        i = i + 1;
    }
    proof {
        assert(log.entries@.take(n as int) =~= log.entries@);
    }
    push_csv_footer(&mut out, log);
    out
}

/// Index of the first occurrence of `c` in `s`, or `s.len()` when absent.
pub open spec fn find_char(s: Seq<char>, c: char) -> int
    decreases s.len(),
{
    if s.len() == 0 {
        0
    } else if s[0] == c {
        0
    } else {
        1 + find_char(s.drop_first(), c)
    }
}

proof fn lemma_find_char_concat(x: Seq<char>, y: Seq<char>, c: char)
    requires
        forall|k: int| 0 <= k < x.len() ==> x[k] != c,
        y.len() > 0,
        y[0] == c,
    ensures
        find_char(x + y, c) == x.len(),
    decreases x.len(),
{
    if x.len() == 0 {
        assert(x + y =~= y);
    } else {
        assert((x + y)[0] == x[0]);
        lemma_find_char_concat(x.drop_first(), y, c);
        assert((x + y).drop_first() =~= x.drop_first() + y);
    }
}

/// Re-parse one entry line of the text report by stripping its bracket/tab
/// syntax, recovering the five fields, or nothing where the syntax does not
/// fit.
pub open spec fn parse_entry_line(s: Seq<char>) -> Option<
    (Seq<char>, Seq<char>, Seq<char>, Seq<char>, Seq<char>),
> {
    if s.len() >= 8 && s.take(8) == "[Local: "@ {
        let r1 = s.skip(8);
        let i1 = find_char(r1, ']');
        let local = r1.take(i1);
        let r1b = r1.skip(i1);
        if r1b.len() >= 8 && r1b.take(8) == "] [UTC: "@ {
            let r2 = r1b.skip(8);
            let i2 = find_char(r2, ']');
            let utc = r2.take(i2);
            let r2b = r2.skip(i2);
            if r2b.len() >= 3 && r2b.take(3) == "] ["@ {
                let r3 = r2b.skip(3);
                let i3 = find_char(r3, ']');
                let kind = r3.take(i3);
                let r3b = r3.skip(i3);
                if r3b.len() >= 3 && r3b.take(3) == "]\t["@ {
                    let r4 = r3b.skip(3);
                    let i4 = find_char(r4, ']');
                    let tag = r4.take(i4);
                    let r4b = r4.skip(i4);
                    if r4b.len() >= 2 && r4b.take(2) == "]\t"@ {
                        Some((local, utc, kind, tag, r4b.skip(2)))
                    } else {
                        None
                    }
                } else {
                    None
                }
            } else {
                None
            }
        } else {
            None
        }
    } else {
        None
    }
}

proof fn lemma_labels_no_bracket(k: EntryKind, t: Tag)
    ensures
        forall|i: int| 0 <= i < kind_label(k).len() ==> #[trigger] kind_label(k)[i] != ']',
        forall|i: int| 0 <= i < tag_label(t).len() ==> #[trigger] tag_label(t)[i] != ']',
{
    reveal_strlit("OBSERVATION");
    reveal_strlit("RELOAD");
    reveal_strlit("TEST CASE");
    reveal_strlit("TEST START");
    reveal_strlit("TEST END");
    reveal_strlit("BUG");
    reveal_strlit("WARN");
    reveal_strlit("GOOD");
    reveal_strlit("PASS");
    reveal_strlit("FAIL");
    reveal_strlit("NOTE");
    reveal_strlit("VERSION");
    reveal_strlit("NAME");
}

/// Every entry line of the text report, re-parsed by stripping the
/// bracket/tab syntax, reproduces exactly the five fields that the tabular
/// report's corresponding row quotes, provided the two timestamp strings
/// contain no closing bracket.
#[verifier::rlimit(100)]
pub proof fn lemma_entry_line_round_trip(e: LogEntry)
    requires
        forall|k: int| 0 <= k < e.local_time@.len() ==> #[trigger] e.local_time@[k] != ']',
        forall|k: int| 0 <= k < e.utc_time@.len() ==> #[trigger] e.utc_time@[k] != ']',
    ensures
        parse_entry_line(entry_line_body(e)) == Some(
            (e.local_time@, e.utc_time@, kind_label(e.kind), tag_label(e.tag), e.description@),
        ),
        csv_row(e) == "\""@ + e.local_time@ + "\",\""@ + e.utc_time@ + "\",\""@ + kind_label(
            e.kind,
        ) + "\",\""@ + tag_label(e.tag) + "\",\""@ + e.description@ + "\"\n"@,
{
    reveal_strlit("[Local: ");
    reveal_strlit("] [UTC: ");
    reveal_strlit("] [");
    reveal_strlit("]\t[");
    reveal_strlit("]\t");
    lemma_labels_no_bracket(e.kind, e.tag);
    let ll = e.local_time@;
    let uu = e.utc_time@;
    let kk = kind_label(e.kind);
    let tt = tag_label(e.tag);
    let dd = e.description@;
    let s = entry_line_body(e);
    let rest1 = "] [UTC: "@ + uu + "] ["@ + kk + "]\t["@ + tt + "]\t"@ + dd;
    let rest2 = "] ["@ + kk + "]\t["@ + tt + "]\t"@ + dd;
    let rest3 = "]\t["@ + tt + "]\t"@ + dd;
    let rest4 = "]\t"@ + dd;
    assert(s.len() >= 8);
    assert(s.take(8) =~= "[Local: "@);
    let r1 = s.skip(8);
    assert(r1 =~= ll + rest1);
    assert(rest1[0] == ']');
    lemma_find_char_concat(ll, rest1, ']');
    assert(find_char(r1, ']') == ll.len());
    assert(r1.take(ll.len() as int) =~= ll);
    let r1b = r1.skip(ll.len() as int);
    assert(r1b =~= rest1);
    assert(r1b.take(8) =~= "] [UTC: "@);
    let r2 = r1b.skip(8);
    assert(r2 =~= uu + rest2);
    assert(rest2[0] == ']');
    lemma_find_char_concat(uu, rest2, ']');
    assert(r2.take(uu.len() as int) =~= uu);
    let r2b = r2.skip(uu.len() as int);
    assert(r2b =~= rest2);
    assert(r2b.take(3) =~= "] ["@);
    let r3 = r2b.skip(3);
    assert(r3 =~= kk + rest3);
    assert(rest3[0] == ']');
    lemma_find_char_concat(kk, rest3, ']');
    assert(r3.take(kk.len() as int) =~= kk);
    let r3b = r3.skip(kk.len() as int);
    assert(r3b =~= rest3);
    assert(r3b.take(3) =~= "]\t["@);
    let r4 = r3b.skip(3);
    assert(r4 =~= tt + rest4);
    assert(rest4[0] == ']');
    lemma_find_char_concat(tt, rest4, ']');
    assert(r4.take(tt.len() as int) =~= tt);
    let r4b = r4.skip(tt.len() as int);
    assert(r4b =~= rest4);
    assert(r4b.take(2) =~= "]\t"@);
    assert(r4b.skip(2) =~= dd);
}

/// Every entry line of a session's text report round-trips: re-parsed, it
/// reproduces the five fields of the tabular report's corresponding row,
/// provided no timestamp string contains a closing bracket.
pub proof fn lemma_report_round_trip(log: SessionLog)
    requires
        forall|i: int, k: int|
            0 <= i < log.entries@.len() && 0 <= k < log.entries@[i].local_time@.len()
                ==> #[trigger] log.entries@[i].local_time@[k] != ']',
        forall|i: int, k: int|
            0 <= i < log.entries@.len() && 0 <= k < log.entries@[i].utc_time@.len()
                ==> #[trigger] log.entries@[i].utc_time@[k] != ']',
    ensures
        forall|i: int|
            0 <= i < log.entries@.len() ==> #[trigger] parse_entry_line(
                entry_line_body(log.entries@[i]),
            ) == Some(
                (
                    log.entries@[i].local_time@,
                    log.entries@[i].utc_time@,
                    kind_label(log.entries@[i].kind),
                    tag_label(log.entries@[i].tag),
                    log.entries@[i].description@,
                ),
            ),
{
    assert forall|i: int| 0 <= i < log.entries@.len() implies #[trigger] parse_entry_line(
        entry_line_body(log.entries@[i]),
    ) == Some(
        (
            log.entries@[i].local_time@,
            log.entries@[i].utc_time@,
            kind_label(log.entries@[i].kind),
            tag_label(log.entries@[i].tag),
            log.entries@[i].description@,
        ),
    ) by {
        lemma_entry_line_round_trip(log.entries@[i]);
    }
}

} // verus!
