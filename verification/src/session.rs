//! The session log: an append-only sequence of classified entries with a
//! running per-tag tally, opened with a start marker and closed exactly once
//! with an end marker and an elapsed duration.

use vstd::prelude::*;

use crate::classify::{EntryKind, Tag};

verus! {

/// One sample of the injected clock: the formatted local and UTC instants and
/// the local instant as whole seconds since the epoch.
pub struct Timestamp {
    pub local: String,
    pub utc: String,
    pub secs: i64,
}

/// The five metadata fields supplied once when a session is created.
pub struct SessionMeta {
    pub test_operator: String,
    pub test_name: String,
    pub software_version: String,
    pub test_objective: String,
    pub participating_assets: String,
}

/// One classified log entry, immutable once created.
pub struct LogEntry {
    pub local_time: String,
    pub utc_time: String,
    pub kind: EntryKind,
    pub tag: Tag,
    pub description: String,
}

/// Occurrence count per tag over the recorded (non-lifecycle) entries.
#[derive(Clone, Copy, PartialEq, Eq, Structural)]
pub struct TagCounts {
    pub bug: u64,
    pub warn: u64,
    pub good: u64,
    pub pass: u64,
    pub fail: u64,
    pub note: u64,
    pub version: u64,
    pub name: u64,
}

impl TagCounts {
    /// The count stored for `t`.
    pub open spec fn get(self, t: Tag) -> u64 {
        match t {
            Tag::Bug => self.bug,
            Tag::Warn => self.warn,
            Tag::Good => self.good,
            Tag::Pass => self.pass,
            Tag::Fail => self.fail,
            Tag::Note => self.note,
            Tag::Version => self.version,
            Tag::Name => self.name,
        }
    }

    /// The sum of all stored counts.
    pub open spec fn total(self) -> int {
        self.bug + self.warn + self.good + self.pass + self.fail + self.note + self.version
            + self.name
    }
}

/// Lifecycle entries mark session start and end; they are excluded from the
/// tag tally.
pub open spec fn is_lifecycle(k: EntryKind) -> bool {
    k == EntryKind::TestStart || k == EntryKind::TestEnd
}

/// How many entries of `s` are recorded (non-lifecycle) entries tagged `t`.
pub open spec fn tag_count_in(s: Seq<LogEntry>, t: Tag) -> int
    decreases s.len(),
{
    if s.len() == 0 {
        0
    } else {
        tag_count_in(s.drop_last(), t) + if !is_lifecycle(s.last().kind) && s.last().tag == t {
            1int
        } else {
            0int
        }
    }
}

/// How many entries of `s` are recorded (non-lifecycle) entries.
pub open spec fn recorded_count(s: Seq<LogEntry>) -> int
    decreases s.len(),
{
    if s.len() == 0 {
        0
    } else {
        recorded_count(s.drop_last()) + if is_lifecycle(s.last().kind) {
            0int
        } else {
            1int
        }
    }
}

/// Whole minutes of a duration of `total` seconds, truncated toward zero.
pub open spec fn elapsed_minutes(total: int) -> int {
    if total >= 0 {
        total / 60
    } else {
        -((-total) / 60)
    }
}

/// Remainder seconds of a duration of `total` seconds beyond its whole
/// minutes, with the sign of `total`.
pub open spec fn elapsed_seconds(total: int) -> int {
    if total >= 0 {
        total % 60
    } else {
        -((-total) % 60)
    }
}

/// A session duration, decomposed as whole minutes plus remainder seconds.
#[derive(Clone, Copy, PartialEq, Eq, Structural)]
pub struct Elapsed {
    pub minutes: i64,
    pub seconds: i64,
}

/// The in-memory session log.
pub struct SessionLog {
    pub meta: SessionMeta,
    pub entries: Vec<LogEntry>,
    pub counts: TagCounts,
    pub start_secs: i64,
    pub end_secs: i64,
    pub closed: bool,
}

impl SessionLog {
    /// Well-formedness: the log starts with the start marker, ends with the
    /// end marker once closed, holds no other lifecycle entries, and its
    /// tally counts exactly the recorded entries of each tag.
    pub open spec fn wf(self) -> bool {
        &&& self.entries@.len() >= 1
        &&& self.entries@[0].kind == EntryKind::TestStart
        &&& (self.closed ==> self.entries@.len() >= 2 && self.entries@.last().kind
            == EntryKind::TestEnd)
        &&& (forall|i: int|
            1 <= i < self.entries@.len() - (if self.closed {
                1int
            } else {
                0int
            }) ==> !is_lifecycle(#[trigger] self.entries@[i].kind))
        &&& self.counts.bug == tag_count_in(self.entries@, Tag::Bug)
        &&& self.counts.warn == tag_count_in(self.entries@, Tag::Warn)
        &&& self.counts.good == tag_count_in(self.entries@, Tag::Good)
        &&& self.counts.pass == tag_count_in(self.entries@, Tag::Pass)
        &&& self.counts.fail == tag_count_in(self.entries@, Tag::Fail)
        &&& self.counts.note == tag_count_in(self.entries@, Tag::Note)
        &&& self.counts.version == tag_count_in(self.entries@, Tag::Version)
        &&& self.counts.name == tag_count_in(self.entries@, Tag::Name)
    }

    /// Open a session: record the start instant and append the TEST START
    /// lifecycle entry carrying the same timestamp.
    pub fn open(meta: SessionMeta, ts: Timestamp) -> (log: SessionLog)
        ensures
            log.wf(),
            !log.closed,
            log.meta == meta,
            log.start_secs == ts.secs,
            log.counts.total() == 0,
            log.entries@.len() == 1,
            log.entries@[0].kind == EntryKind::TestStart,
            log.entries@[0].tag == Tag::Note,
            log.entries@[0].description@ == "Test started"@,
            log.entries@[0].local_time == ts.local,
            log.entries@[0].utc_time == ts.utc,
    {
        let entry = LogEntry {
            local_time: ts.local,
            utc_time: ts.utc,
            kind: EntryKind::TestStart,
            tag: Tag::Note,
            description: "Test started".to_owned(),
        };
        let mut entries: Vec<LogEntry> = Vec::new();
        entries.push(entry);
        let counts = TagCounts { bug: 0, warn: 0, good: 0, pass: 0, fail: 0, note: 0, version: 0, name: 0 };
        proof {
            assert(entries@.drop_last() =~= Seq::<LogEntry>::empty());
            assert(tag_count_in(Seq::<LogEntry>::empty(), Tag::Bug) == 0);
            assert(tag_count_in(Seq::<LogEntry>::empty(), Tag::Warn) == 0);
            assert(tag_count_in(Seq::<LogEntry>::empty(), Tag::Good) == 0);
            assert(tag_count_in(Seq::<LogEntry>::empty(), Tag::Pass) == 0);
            assert(tag_count_in(Seq::<LogEntry>::empty(), Tag::Fail) == 0);
            assert(tag_count_in(Seq::<LogEntry>::empty(), Tag::Note) == 0);
            assert(tag_count_in(Seq::<LogEntry>::empty(), Tag::Version) == 0);
            assert(tag_count_in(Seq::<LogEntry>::empty(), Tag::Name) == 0);
        }
        SessionLog { meta, entries, counts, start_secs: ts.secs, end_secs: ts.secs, closed: false }
    }

    /// Append one classified entry with a fresh timestamp pair and count its
    /// tag. Only valid while the session is open; lifecycle entries are
    /// appended by [`SessionLog::open`] and [`SessionLog::close`] alone.
    pub fn record(&mut self, kind: EntryKind, tag: Tag, description: String, ts: Timestamp)
        requires
            old(self).wf(),
            !old(self).closed,
            !is_lifecycle(kind),
        ensures
            final(self).wf(),
            !final(self).closed,
            final(self).meta == old(self).meta,
            final(self).start_secs == old(self).start_secs,
            final(self).end_secs == old(self).end_secs,
            final(self).entries@ == old(self).entries@.push(
                (LogEntry { local_time: ts.local, utc_time: ts.utc, kind, tag, description }),
            ),
            recorded_count(final(self).entries@) == recorded_count(old(self).entries@) + 1,
            final(self).counts.get(tag) == old(self).counts.get(tag) + 1,
            forall|t: Tag| t != tag ==> final(self).counts.get(t) == old(self).counts.get(t),
            final(self).counts.total() == old(self).counts.total() + 1,
    {
        let entry = LogEntry { local_time: ts.local, utc_time: ts.utc, kind, tag, description };
        proof {
            lemma_counts_push(self.entries@, entry);
            lemma_tag_count_le_len(self.entries@, tag);
        }
        self.entries.push(entry);
        // the tally is bounded by the entry count, which fits in usize, so
        // the increment below cannot overflow
        let n = self.entries.len();
        proof {
            assert(old(self).counts.get(tag) < n);
        }
        match tag {
            Tag::Bug => self.counts.bug = self.counts.bug + 1,
            Tag::Warn => self.counts.warn = self.counts.warn + 1,
            Tag::Good => self.counts.good = self.counts.good + 1,
            Tag::Pass => self.counts.pass = self.counts.pass + 1,
            Tag::Fail => self.counts.fail = self.counts.fail + 1,
            Tag::Note => self.counts.note = self.counts.note + 1,
            Tag::Version => self.counts.version = self.counts.version + 1,
            Tag::Name => self.counts.name = self.counts.name + 1,
        }
    }

    /// Close the session: append the TEST END lifecycle entry, store the end
    /// instant, and return the elapsed duration since the session opened, as
    /// whole minutes and remainder seconds.
    pub fn close(&mut self, ts: Timestamp) -> (d: Elapsed)
        requires
            old(self).wf(),
            !old(self).closed,
        ensures
            final(self).wf(),
            final(self).closed,
            final(self).meta == old(self).meta,
            final(self).counts == old(self).counts,
            final(self).start_secs == old(self).start_secs,
            final(self).end_secs == ts.secs,
            final(self).entries@.len() == old(self).entries@.len() + 1,
            final(self).entries@.drop_last() == old(self).entries@,
            final(self).entries@.last().kind == EntryKind::TestEnd,
            final(self).entries@.last().tag == Tag::Note,
            final(self).entries@.last().description@ == "Test session ended."@,
            final(self).entries@.last().local_time == ts.local,
            final(self).entries@.last().utc_time == ts.utc,
            recorded_count(final(self).entries@) == recorded_count(old(self).entries@),
            d.minutes == elapsed_minutes(ts.secs - old(self).start_secs),
            d.seconds == elapsed_seconds(ts.secs - old(self).start_secs),
    {
        let entry = LogEntry {
            local_time: ts.local,
            utc_time: ts.utc,
            kind: EntryKind::TestEnd,
            tag: Tag::Note,
            description: "Test session ended.".to_owned(),
        };
        proof {
            lemma_counts_push(self.entries@, entry);
        }
        self.entries.push(entry);
        let d = elapsed_between(self.start_secs, ts.secs);
        self.end_secs = ts.secs;
        self.closed = true;
        proof {
            assert(self.entries@.drop_last() =~= old(self).entries@);
        }
        d
    }
}

/// The elapsed duration from the instant `start` to the instant `end`, both
/// in whole seconds, decomposed as whole minutes and remainder seconds,
/// truncated toward zero.
pub fn elapsed_between(start: i64, end: i64) -> (d: Elapsed)
    ensures
        d.minutes == elapsed_minutes(end - start),
        d.seconds == elapsed_seconds(end - start),
{
    let total: i128 = (end as i128) - (start as i128);
    let neg = total < 0;
    let p: u128 = if neg {
        (-total) as u128
    } else {
        total as u128
    };
    proof {
        vstd::arithmetic::div_mod::lemma_div_is_ordered(
            p as int,
            0x1_0000_0000_0000_0000,
            60,
        );
        vstd::arithmetic::div_mod::lemma_mod_bound(p as int, 60);
    }
    let m: u128 = p / 60;
    let r: u128 = p % 60;
    if neg {
        Elapsed { minutes: -(m as i64), seconds: -(r as i64) }
    } else {
        Elapsed { minutes: m as i64, seconds: r as i64 }
    }
}

proof fn lemma_counts_push(s: Seq<LogEntry>, e: LogEntry)
    ensures
        forall|t: Tag|
            #[trigger] tag_count_in(s.push(e), t) == tag_count_in(s, t) + if !is_lifecycle(e.kind)
                && e.tag == t {
                1int
            } else {
                0int
            },
        recorded_count(s.push(e)) == recorded_count(s) + if is_lifecycle(e.kind) {
            0int
        } else {
            1int
        },
{
    assert(s.push(e).drop_last() =~= s);
    assert(s.push(e).last() == e);
}

proof fn lemma_tag_count_le_len(s: Seq<LogEntry>, t: Tag)
    ensures
        0 <= tag_count_in(s, t) <= recorded_count(s),
        0 <= recorded_count(s) <= s.len(),
    decreases s.len(),
{
    if s.len() > 0 {
        lemma_tag_count_le_len(s.drop_last(), t);
    }
}

proof fn lemma_total_is_recorded(s: Seq<LogEntry>)
    ensures
        tag_count_in(s, Tag::Bug) + tag_count_in(s, Tag::Warn) + tag_count_in(s, Tag::Good)
            + tag_count_in(s, Tag::Pass) + tag_count_in(s, Tag::Fail) + tag_count_in(s, Tag::Note)
            + tag_count_in(s, Tag::Version) + tag_count_in(s, Tag::Name) == recorded_count(s),
    decreases s.len(),
{
    if s.len() > 0 {
        lemma_total_is_recorded(s.drop_last());
    }
}

proof fn lemma_recorded_open(s: Seq<LogEntry>)
    requires
        s.len() >= 1,
        is_lifecycle(s[0].kind),
        forall|i: int| 1 <= i < s.len() ==> !is_lifecycle(#[trigger] s[i].kind),
    ensures
        recorded_count(s) == s.len() - 1,
    decreases s.len(),
{
    if s.len() == 1 {
        assert(s.drop_last() =~= Seq::<LogEntry>::empty());
        assert(recorded_count(Seq::<LogEntry>::empty()) == 0);
        assert(is_lifecycle(s.last().kind));
    } else {
        let d = s.drop_last();
        assert(forall|i: int| 1 <= i < d.len() ==> !is_lifecycle(#[trigger] d[i].kind));
        lemma_recorded_open(d);
        assert(!is_lifecycle(s.last().kind));
    }
}

/// In a closed well-formed session log, the tag tally total equals the number
/// of recorded entries, and the entry count is that number plus the two
/// lifecycle markers.
pub proof fn lemma_closed_log_accounting(log: SessionLog)
    requires
        log.wf(),
        log.closed,
    ensures
        log.counts.total() == recorded_count(log.entries@),
        log.entries@.len() == recorded_count(log.entries@) + 2,
{
    lemma_total_is_recorded(log.entries@);
    let s = log.entries@;
    let d = s.drop_last();
    assert(forall|i: int| 1 <= i < d.len() ==> !is_lifecycle(#[trigger] d[i].kind));
    lemma_recorded_open(d);
    assert(is_lifecycle(s.last().kind));
}

/// In an open well-formed session log, the tag tally total equals the number
/// of recorded entries, and the entry count is that number plus the start
/// marker.
pub proof fn lemma_open_log_accounting(log: SessionLog)
    requires
        log.wf(),
        !log.closed,
    ensures
        log.counts.total() == recorded_count(log.entries@),
        log.entries@.len() == recorded_count(log.entries@) + 1,
{
    lemma_total_is_recorded(log.entries@);
    lemma_recorded_open(log.entries@);
}

/// A duration decomposes exactly into whole minutes and remainder seconds:
/// minutes * 60 + seconds recovers the wall-clock difference, and for a
/// non-negative duration the remainder lies in [0, 60).
pub proof fn lemma_elapsed_decomposition(total: int)
    ensures
        elapsed_minutes(total) * 60 + elapsed_seconds(total) == total,
        total >= 0 ==> 0 <= elapsed_seconds(total) < 60,
        total < 0 ==> -60 < elapsed_seconds(total) <= 0,
{
    if total >= 0 {
        vstd::arithmetic::div_mod::lemma_fundamental_div_mod(total, 60);
        vstd::arithmetic::div_mod::lemma_mod_bound(total, 60);
    } else {
        vstd::arithmetic::div_mod::lemma_fundamental_div_mod(-total, 60);
        vstd::arithmetic::div_mod::lemma_mod_bound(-total, 60);
    }
}

} // verus!
