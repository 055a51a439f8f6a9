//! Classification of one raw operator line into a typed log entry.
//!
//! Classification is prefix-based and case-insensitive on the prefix token
//! only; the description keeps the original casing of the remainder.

use vstd::prelude::*;

verus! {

/// Coarse category of a log entry.
#[derive(Clone, Copy, Debug, PartialEq, Eq, Structural)]
pub enum EntryKind {
    Observation,
    Reload,
    TestCase,
    TestStart,
    TestEnd,
}

/// Fine-grained classification carried by an entry.
#[derive(Clone, Copy, Debug, PartialEq, Eq, Structural)]
pub enum Tag {
    Bug,
    Warn,
    Good,
    Pass,
    Fail,
    Note,
    Version,
    Name,
}

/// Label under which an entry kind appears in the reports.
pub open spec fn kind_label(k: EntryKind) -> Seq<char> {
    match k {
        EntryKind::Observation => "OBSERVATION"@,
        EntryKind::Reload => "RELOAD"@,
        EntryKind::TestCase => "TEST CASE"@,
        EntryKind::TestStart => "TEST START"@,
        EntryKind::TestEnd => "TEST END"@,
    }
}

/// Label under which a tag appears in the reports.
pub open spec fn tag_label(t: Tag) -> Seq<char> {
    match t {
        Tag::Bug => "BUG"@,
        Tag::Warn => "WARN"@,
        Tag::Good => "GOOD"@,
        Tag::Pass => "PASS"@,
        Tag::Fail => "FAIL"@,
        Tag::Note => "NOTE"@,
        Tag::Version => "VERSION"@,
        Tag::Name => "NAME"@,
    }
}

/// The entry-kind label as an executable string.
pub fn kind_text(k: EntryKind) -> (r: &'static str)
    ensures
        r@ == kind_label(k),
{
    match k {
        EntryKind::Observation => "OBSERVATION",
        EntryKind::Reload => "RELOAD",
        EntryKind::TestCase => "TEST CASE",
        EntryKind::TestStart => "TEST START",
        EntryKind::TestEnd => "TEST END",
    }
}

/// The tag label as an executable string.
pub fn tag_text(t: Tag) -> (r: &'static str)
    ensures
        r@ == tag_label(t),
{
    match t {
        Tag::Bug => "BUG",
        Tag::Warn => "WARN",
        Tag::Good => "GOOD",
        Tag::Pass => "PASS",
        Tag::Fail => "FAIL",
        Tag::Note => "NOTE",
        Tag::Version => "VERSION",
        Tag::Name => "NAME",
    }
}

/// The characters with the Unicode `White_Space` property: exactly the set
/// that line trimming removes at either end.
pub open spec fn is_space(c: char) -> bool {
    ||| c == ' '
    ||| c == '\t'
    ||| c == '\n'
    ||| c == '\r'
    ||| c == '\u{b}'
    ||| c == '\u{c}'
    ||| c == '\u{85}'
    ||| c == '\u{a0}'
    ||| c == '\u{1680}'
    ||| c == '\u{2000}'
    ||| c == '\u{2001}'
    ||| c == '\u{2002}'
    ||| c == '\u{2003}'
    ||| c == '\u{2004}'
    ||| c == '\u{2005}'
    ||| c == '\u{2006}'
    ||| c == '\u{2007}'
    ||| c == '\u{2008}'
    ||| c == '\u{2009}'
    ||| c == '\u{200a}'
    ||| c == '\u{2028}'
    ||| c == '\u{2029}'
    ||| c == '\u{202f}'
    ||| c == '\u{205f}'
    ||| c == '\u{3000}'
}

/// Executable test for [`is_space`].
pub fn space_char(c: char) -> (r: bool)
    ensures
        r == is_space(c),
{
    c == ' ' || c == '\t' || c == '\n' || c == '\r' || c == '\u{b}' || c == '\u{c}'
        || c == '\u{85}' || c == '\u{a0}' || c == '\u{1680}' || c == '\u{2000}'
        || c == '\u{2001}' || c == '\u{2002}' || c == '\u{2003}' || c == '\u{2004}'
        || c == '\u{2005}' || c == '\u{2006}' || c == '\u{2007}' || c == '\u{2008}'
        || c == '\u{2009}' || c == '\u{200a}' || c == '\u{2028}' || c == '\u{2029}'
        || c == '\u{202f}' || c == '\u{205f}' || c == '\u{3000}'
}

/// `s` with leading whitespace removed.
pub open spec fn trim_front(s: Seq<char>) -> Seq<char>
    decreases s.len(),
{
    if s.len() == 0 {
        s
    } else if is_space(s[0]) {
        trim_front(s.drop_first())
    } else {
        s
    }
}

/// `s` with trailing whitespace removed.
pub open spec fn trim_back(s: Seq<char>) -> Seq<char>
    decreases s.len(),
{
    if s.len() == 0 {
        s
    } else if is_space(s.last()) {
        trim_back(s.drop_last())
    } else {
        s
    }
}

/// `s` with whitespace removed at both ends.
pub open spec fn trimmed(s: Seq<char>) -> Seq<char> {
    trim_back(trim_front(s))
}

proof fn lemma_trim_front_skip(s: Seq<char>, i: int)
    requires
        0 <= i <= s.len(),
        forall|k: int| 0 <= k < i ==> is_space(s[k]),
        i == s.len() || !is_space(s[i]),
    ensures
        trim_front(s) == s.skip(i),
    decreases i,
{
    if i == 0 {
        assert(s.skip(0) =~= s);
        if s.len() != 0 {
            assert(!is_space(s[0]));
        }
    } else {
        assert(is_space(s[0]));
        let d = s.drop_first();
        lemma_trim_front_skip(d, i - 1);
        assert(d.skip(i - 1) =~= s.skip(i));
    }
}

proof fn lemma_trim_back_take(s: Seq<char>, j: int)
    requires
        0 <= j <= s.len(),
        forall|k: int| j <= k < s.len() ==> is_space(s[k]),
        j == 0 || !is_space(s[j - 1]),
    ensures
        trim_back(s) == s.take(j),
    decreases s.len(),
{
    if j == s.len() {
        if s.len() == 0 {
            assert(s.take(0) =~= s);
        } else {
            assert(!is_space(s.last()));
            assert(s.take(j) =~= s);
        }
    } else {
        assert(is_space(s.last()));
        let d = s.drop_last();
        lemma_trim_back_take(d, j);
        assert(d.take(j) =~= s.take(j));
    }
}

/// A copy of `s` with leading and trailing whitespace removed, as `str::trim`
/// would produce.
pub fn trim_line(s: &str) -> (r: String)
    ensures
        r@ == trimmed(s@),
{
    let n = s.unicode_len();
    let mut i: usize = 0;
    while i < n && space_char(s.get_char(i))
        invariant
            0 <= i <= n,
            n == s@.len(),
            forall|k: int| 0 <= k < i ==> is_space(s@[k]),
        decreases n - i,
    {
        i = i + 1;
    }
    proof {
        lemma_trim_front_skip(s@, i as int);
    }
    let mut j: usize = n;
    while j > i && space_char(s.get_char(j - 1))
        invariant
            i <= j <= n,
            n == s@.len(),
            forall|k: int| j <= k < n ==> is_space(s@[k]),
        decreases j,
    {
        j = j - 1;
    }
    let sub = s.substring_char(i, j);
    proof {
        let f = s@.skip(i as int);
        assert(forall|k: int| (j - i) <= k < f.len() ==> is_space(#[trigger] f[k]));
        if j > i {
            assert(!is_space(f[j - i - 1]));
        }
        lemma_trim_back_take(f, j - i);
        assert(f.take(j - i) =~= s@.subrange(i as int, j as int));
    }
    String::from_str(sub)
}

/// Count of leading whitespace characters of `s`.
spec fn lead_len(s: Seq<char>) -> int
    decreases s.len(),
{
    if s.len() == 0 {
        0
    } else if is_space(s[0]) {
        1 + lead_len(s.drop_first())
    } else {
        0
    }
}

/// Index just past the last non-whitespace character of `s`.
spec fn trail_ix(s: Seq<char>) -> int
    decreases s.len(),
{
    if s.len() == 0 {
        0
    } else if is_space(s.last()) {
        trail_ix(s.drop_last())
    } else {
        s.len() as int
    }
}

proof fn lemma_lead_len(s: Seq<char>)
    ensures
        0 <= lead_len(s) <= s.len(),
        forall|k: int| 0 <= k < lead_len(s) ==> is_space(s[k]),
        lead_len(s) < s.len() ==> !is_space(s[lead_len(s)]),
        trim_front(s) == s.skip(lead_len(s)),
    decreases s.len(),
{
    if s.len() == 0 {
        assert(s.skip(0) =~= s);
    } else if is_space(s[0]) {
        let d = s.drop_first();
        lemma_lead_len(d);
        assert(forall|k: int| 1 <= k < lead_len(s) ==> s[k] == d[k - 1]);
        assert(d.skip(lead_len(s) - 1) =~= s.skip(lead_len(s)));
        if lead_len(s) < s.len() {
            assert(s[lead_len(s)] == d[lead_len(s) - 1]);
        }
    } else {
        assert(s.skip(0) =~= s);
    }
}

proof fn lemma_trail_ix(s: Seq<char>)
    ensures
        0 <= trail_ix(s) <= s.len(),
        forall|k: int| trail_ix(s) <= k < s.len() ==> is_space(s[k]),
        trail_ix(s) > 0 ==> !is_space(s[trail_ix(s) - 1]),
        trim_back(s) == s.take(trail_ix(s)),
    decreases s.len(),
{
    if s.len() == 0 {
        assert(s.take(0) =~= s);
    } else if is_space(s.last()) {
        let d = s.drop_last();
        lemma_trail_ix(d);
        assert(forall|k: int| trail_ix(s) <= k < s.len() - 1 ==> s[k] == d[k]);
        assert(d.take(trail_ix(s)) =~= s.take(trail_ix(s)));
        if trail_ix(s) > 0 {
            assert(s[trail_ix(s) - 1] == d[trail_ix(s) - 1]);
        }
    } else {
        assert(s.take(s.len() as int) =~= s);
    }
}

/// Trimming a line twice is the same as trimming it once.
pub proof fn lemma_trimmed_idempotent(s: Seq<char>)
    ensures
        trimmed(trimmed(s)) == trimmed(s),
{
    let a = lead_len(s);
    lemma_lead_len(s);
    let u = s.skip(a);
    let j = trail_ix(u);
    lemma_trail_ix(u);
    let t = u.take(j);
    assert(trimmed(s) == t);
    if t.len() == 0 {
        assert(trim_front(t) == t);
        assert(trim_back(t) == t);
    } else {
        assert(!is_space(t[0])) by {
            if a < s.len() {
                assert(t[0] == u[0]);
            }
        }
        assert(!is_space(t.last()));
        assert(trim_front(t) == t);
        assert(trim_back(t) == t);
    }
}

/// Dropping trailing whitespace first does not change the trimmed line.
proof fn lemma_trimmed_trim_back(d: Seq<char>)
    ensures
        trimmed(trim_back(d)) == trimmed(d),
{
    let a = lead_len(d);
    lemma_lead_len(d);
    let j = trail_ix(d);
    lemma_trail_ix(d);
    let b = trim_back(d);
    assert(b == d.take(j));
    if j <= a {
        // every character of d is whitespace, so both sides are empty
        assert(forall|k: int| 0 <= k < d.len() ==> is_space(d[k]));
        lemma_lead_len(b);
        assert(b.len() == j);
        assert(lead_len(b) == j) by {
            if lead_len(b) < j {
                assert(is_space(b[lead_len(b)]));
            }
        }
        assert(trim_front(b) =~= Seq::<char>::empty());
        assert(trim_back(trim_front(b)) =~= Seq::<char>::empty());
        let u = d.skip(a);
        lemma_trail_ix(u);
        assert(trail_ix(u) == 0) by {
            if trail_ix(u) > 0 {
                assert(!is_space(u[trail_ix(u) - 1]));
                assert(u[trail_ix(u) - 1] == d[a + trail_ix(u) - 1]);
            }
        }
        assert(trimmed(d) =~= Seq::<char>::empty());
    } else {
        // j > a: the trimmed text is d[a .. j] on both sides
        lemma_trim_front_skip(b, a);
        assert(trim_front(b) =~= d.subrange(a, j));
        let t = d.subrange(a, j);
        assert(!is_space(t.last()));
        assert(trim_back(t) == t);
        let u = d.skip(a);
        lemma_trim_back_take(u, j - a);
        assert(u.take(j - a) =~= t);
        assert(trimmed(d) == t);
    }
}

/// `s` starts with the prefix whose lowercase spelling is `lo` and uppercase
/// spelling is `up`, each position matching either casing.
pub open spec fn has_prefix_ci(s: Seq<char>, lo: Seq<char>, up: Seq<char>) -> bool {
    &&& s.len() >= lo.len()
    &&& up.len() == lo.len()
    &&& forall|i: int| 0 <= i < lo.len() ==> (#[trigger] s[i]) == lo[i] || s[i] == up[i]
}

/// Executable test for [`has_prefix_ci`].
fn starts_with_ci(s: &str, lo: &str, up: &str) -> (r: bool)
    requires
        lo@.len() == up@.len(),
    ensures
        r == has_prefix_ci(s@, lo@, up@),
{
    let n = lo.unicode_len();
    if s.unicode_len() < n {
        return false;
    }
    let mut i: usize = 0;
    while i < n
        invariant
            0 <= i <= n,
            n == lo@.len(),
            up@.len() == n,
            s@.len() >= n,
            forall|k: int| 0 <= k < i ==> (#[trigger] s@[k]) == lo@[k] || s@[k] == up@[k],
        decreases n - i,
    {
        let c = s.get_char(i);
        if c != lo.get_char(i) && c != up.get_char(i) {
            return false;
        }
        i = i + 1;
    }
    true
}

/// Classification of one trimmed-or-raw line: the table of recognized
/// prefixes, checked case-insensitively, each yielding its kind and tag and
/// the trimmed remainder; anything else is a NOTE observation carrying the
/// whole trimmed line.
pub open spec fn spec_classify(s: Seq<char>) -> (EntryKind, Tag, Seq<char>) {
    let t = trimmed(s);
    if has_prefix_ci(t, "bug:"@, "BUG:"@) {
        (EntryKind::Observation, Tag::Bug, trimmed(t.skip(4)))
    } else if has_prefix_ci(t, "warn:"@, "WARN:"@) {
        (EntryKind::Observation, Tag::Warn, trimmed(t.skip(5)))
    } else if has_prefix_ci(t, "good:"@, "GOOD:"@) {
        (EntryKind::Observation, Tag::Good, trimmed(t.skip(5)))
    } else if has_prefix_ci(t, "pass:"@, "PASS:"@) {
        (EntryKind::Observation, Tag::Pass, trimmed(t.skip(5)))
    } else if has_prefix_ci(t, "fail:"@, "FAIL:"@) {
        (EntryKind::Observation, Tag::Fail, trimmed(t.skip(5)))
    } else if has_prefix_ci(t, "reload:"@, "RELOAD:"@) {
        (EntryKind::Reload, Tag::Version, trimmed(t.skip(7)))
    } else if has_prefix_ci(t, "testcase:"@, "TESTCASE:"@) {
        (EntryKind::TestCase, Tag::Name, trimmed(t.skip(9)))
    } else {
        (EntryKind::Observation, Tag::Note, t)
    }
}

/// Classify one raw input line into its entry kind, tag and cleaned
/// description.
pub fn classify_line(line: &str) -> (r: (EntryKind, Tag, String))
    ensures
        (r.0, r.1, r.2@) == spec_classify(line@),
{
    proof {
        reveal_strlit("bug:");
        reveal_strlit("BUG:");
        reveal_strlit("warn:");
        reveal_strlit("WARN:");
        reveal_strlit("good:");
        reveal_strlit("GOOD:");
        reveal_strlit("pass:");
        reveal_strlit("PASS:");
        reveal_strlit("fail:");
        reveal_strlit("FAIL:");
        reveal_strlit("reload:");
        reveal_strlit("RELOAD:");
        reveal_strlit("testcase:");
        reveal_strlit("TESTCASE:");
    }
    let t = trim_line(line);
    let ts = t.as_str();
    let n = ts.unicode_len();
    if starts_with_ci(ts, "bug:", "BUG:") {
        let d = trim_line(ts.substring_char(4, n));
        proof {
            assert(ts@.subrange(4, n as int) =~= ts@.skip(4));
        }
        (EntryKind::Observation, Tag::Bug, d)
    } else if starts_with_ci(ts, "warn:", "WARN:") {
        let d = trim_line(ts.substring_char(5, n));
        proof {
            assert(ts@.subrange(5, n as int) =~= ts@.skip(5));
        }
        (EntryKind::Observation, Tag::Warn, d)
    } else if starts_with_ci(ts, "good:", "GOOD:") {
        let d = trim_line(ts.substring_char(5, n));
        proof {
            assert(ts@.subrange(5, n as int) =~= ts@.skip(5));
        }
        (EntryKind::Observation, Tag::Good, d)
    } else if starts_with_ci(ts, "pass:", "PASS:") {
        let d = trim_line(ts.substring_char(5, n));
        proof {
            assert(ts@.subrange(5, n as int) =~= ts@.skip(5));
        }
        (EntryKind::Observation, Tag::Pass, d)
    } else if starts_with_ci(ts, "fail:", "FAIL:") {
        let d = trim_line(ts.substring_char(5, n));
        proof {
            assert(ts@.subrange(5, n as int) =~= ts@.skip(5));
        }
        (EntryKind::Observation, Tag::Fail, d)
    } else if starts_with_ci(ts, "reload:", "RELOAD:") {
        let d = trim_line(ts.substring_char(7, n));
        proof {
            assert(ts@.subrange(7, n as int) =~= ts@.skip(7));
        }
        (EntryKind::Reload, Tag::Version, d)
    } else if starts_with_ci(ts, "testcase:", "TESTCASE:") {
        let d = trim_line(ts.substring_char(9, n));
        proof {
            assert(ts@.subrange(9, n as int) =~= ts@.skip(9));
        }
        (EntryKind::TestCase, Tag::Name, d)
    } else {
        (EntryKind::Observation, Tag::Note, t)
    }
}

/// Classify one raw input line, returning the entry kind and tag under their
/// report labels together with the cleaned description.
pub fn parse_input(input: &str) -> (r: (String, String, String))
    ensures
        r.0@ == kind_label(spec_classify(input@).0),
        r.1@ == tag_label(spec_classify(input@).1),
        r.2@ == spec_classify(input@).2,
{
    let (k, tg, d) = classify_line(input);
    (kind_text(k).to_owned(), tag_text(tg).to_owned(), d)
}

/// The trimmed line is the session-ending sentinel `end`, case-insensitively.
pub open spec fn is_end_token(s: Seq<char>) -> bool {
    &&& s.len() == 3
    &&& (s[0] == 'e' || s[0] == 'E')
    &&& (s[1] == 'n' || s[1] == 'N')
    &&& (s[2] == 'd' || s[2] == 'D')
}

/// What the session loop must do with one raw input line.
pub enum LineAction {
    /// The line is blank after trimming: no entry is produced.
    Ignore,
    /// The line is the `end` sentinel: the session terminates.
    Finish,
    /// The line classifies into an entry to record.
    Log(EntryKind, Tag, String),
}

/// Decide what one raw input line means for the session: blank lines produce
/// nothing, the sentinel `end` (case-insensitive, surrounding whitespace
/// ignored) finishes the session, and every other line is classified.
pub fn interpret_line(line: &str) -> (r: LineAction)
    ensures
        trimmed(line@).len() == 0 ==> (r is Ignore),
        is_end_token(trimmed(line@)) ==> (r is Finish),
        trimmed(line@).len() != 0 && !is_end_token(trimmed(line@)) ==> (r matches LineAction::Log(
            k,
            t,
            d,
        ) && (k, t, d@) == spec_classify(line@)),
{
    let t = trim_line(line);
    let ts = t.as_str();
    let n = ts.unicode_len();
    if n == 0 {
        return LineAction::Ignore;
    }
    if n == 3 {
        let c0 = ts.get_char(0);
        let c1 = ts.get_char(1);
        let c2 = ts.get_char(2);
        if (c0 == 'e' || c0 == 'E') && (c1 == 'n' || c1 == 'N') && (c2 == 'd' || c2 == 'D') {
            return LineAction::Finish;
        }
    }
    let (k, tg, d) = classify_line(line);
    LineAction::Log(k, tg, d)
}

/// The lowercase spelling of the prefix that selects `t`, or the empty
/// sequence for the default tag NOTE.
pub open spec fn prefix_lo(t: Tag) -> Seq<char> {
    match t {
        Tag::Bug => "bug:"@,
        Tag::Warn => "warn:"@,
        Tag::Good => "good:"@,
        Tag::Pass => "pass:"@,
        Tag::Fail => "fail:"@,
        Tag::Version => "reload:"@,
        Tag::Name => "testcase:"@,
        Tag::Note => Seq::<char>::empty(),
    }
}

/// The uppercase spelling of the prefix that selects `t`.
pub open spec fn prefix_up(t: Tag) -> Seq<char> {
    match t {
        Tag::Bug => "BUG:"@,
        Tag::Warn => "WARN:"@,
        Tag::Good => "GOOD:"@,
        Tag::Pass => "PASS:"@,
        Tag::Fail => "FAIL:"@,
        Tag::Version => "RELOAD:"@,
        Tag::Name => "TESTCASE:"@,
        Tag::Note => Seq::<char>::empty(),
    }
}

/// The entry kind that the prefix of `t` selects.
pub open spec fn kind_of_tag(t: Tag) -> EntryKind {
    match t {
        Tag::Version => EntryKind::Reload,
        Tag::Name => EntryKind::TestCase,
        _ => EntryKind::Observation,
    }
}

/// Appending after a sequence that ends in non-whitespace trims independently.
proof fn lemma_trim_back_concat(p: Seq<char>, d: Seq<char>)
    requires
        p.len() > 0,
        !is_space(p.last()),
    ensures
        trim_back(p + d) == p + trim_back(d),
{
    let j = trail_ix(d);
    lemma_trail_ix(d);
    let s = p + d;
    assert(forall|k: int| p.len() + j <= k < s.len() ==> is_space(s[k])) by {
        assert(forall|k: int| p.len() + j <= k < s.len() ==> s[k] == d[k - p.len()] && is_space(d[k - p.len()]));
    }
    if j > 0 {
        assert(s[p.len() + j - 1] == d[j - 1]);
        assert(!is_space(s[p.len() + j - 1]));
    } else {
        assert(s[p.len() as int - 1] == p.last());
        assert(!is_space(s[p.len() + j - 1]));
    }
    lemma_trim_back_take(s, p.len() + j);
    assert(s.take(p.len() + j) =~= p + d.take(j));
}

proof fn lemma_not_prefix_first_char(s: Seq<char>, lo: Seq<char>, up: Seq<char>)
    requires
        lo.len() > 0,
        s.len() > 0,
        s[0] != lo[0],
        s[0] != up[0],
    ensures
        !has_prefix_ci(s, lo, up),
{
    if has_prefix_ci(s, lo, up) {
        assert(s[0] == lo[0] || s[0] == up[0]);
    }
}

/// For every recognized prefix and every remainder `d`, classifying
/// prefix + d yields that prefix's kind and tag and `d` trimmed.
pub proof fn lemma_classify_prefixed(t: Tag, d: Seq<char>)
    requires
        t != Tag::Note,
    ensures
        spec_classify(prefix_lo(t) + d) == (kind_of_tag(t), t, trimmed(d)),
{
    reveal_strlit("bug:");
    reveal_strlit("BUG:");
    reveal_strlit("warn:");
    reveal_strlit("WARN:");
    reveal_strlit("good:");
    reveal_strlit("GOOD:");
    reveal_strlit("pass:");
    reveal_strlit("PASS:");
    reveal_strlit("fail:");
    reveal_strlit("FAIL:");
    reveal_strlit("reload:");
    reveal_strlit("RELOAD:");
    reveal_strlit("testcase:");
    reveal_strlit("TESTCASE:");
    let p = prefix_lo(t);
    let s = p + d;
    assert(s[0] == p[0]);
    assert(!is_space(p[0]));
    assert(!is_space(p.last()));
    assert(trim_front(s) == s);
    lemma_trim_back_concat(p, d);
    let tb = trim_back(d);
    let tr = p + tb;
    assert(trimmed(s) == tr);
    assert(forall|i: int| 0 <= i < p.len() ==> (#[trigger] tr[i]) == p[i]);
    assert(has_prefix_ci(tr, prefix_lo(t), prefix_up(t)));
    lemma_trimmed_trim_back(d);
    assert(tr.skip(p.len() as int) =~= tb);
    match t {
        Tag::Bug => {
        },
        Tag::Warn => {
            lemma_not_prefix_first_char(tr, "bug:"@, "BUG:"@);
        },
        Tag::Good => {
            lemma_not_prefix_first_char(tr, "bug:"@, "BUG:"@);
            lemma_not_prefix_first_char(tr, "warn:"@, "WARN:"@);
        },
        Tag::Pass => {
            lemma_not_prefix_first_char(tr, "bug:"@, "BUG:"@);
            lemma_not_prefix_first_char(tr, "warn:"@, "WARN:"@);
            lemma_not_prefix_first_char(tr, "good:"@, "GOOD:"@);
        },
        Tag::Fail => {
            lemma_not_prefix_first_char(tr, "bug:"@, "BUG:"@);
            lemma_not_prefix_first_char(tr, "warn:"@, "WARN:"@);
            lemma_not_prefix_first_char(tr, "good:"@, "GOOD:"@);
            lemma_not_prefix_first_char(tr, "pass:"@, "PASS:"@);
        },
        Tag::Version => {
            lemma_not_prefix_first_char(tr, "bug:"@, "BUG:"@);
            lemma_not_prefix_first_char(tr, "warn:"@, "WARN:"@);
            lemma_not_prefix_first_char(tr, "good:"@, "GOOD:"@);
            lemma_not_prefix_first_char(tr, "pass:"@, "PASS:"@);
            lemma_not_prefix_first_char(tr, "fail:"@, "FAIL:"@);
        },
        Tag::Name => {
            lemma_not_prefix_first_char(tr, "bug:"@, "BUG:"@);
            lemma_not_prefix_first_char(tr, "warn:"@, "WARN:"@);
            lemma_not_prefix_first_char(tr, "good:"@, "GOOD:"@);
            lemma_not_prefix_first_char(tr, "pass:"@, "PASS:"@);
            lemma_not_prefix_first_char(tr, "fail:"@, "FAIL:"@);
            lemma_not_prefix_first_char(tr, "reload:"@, "RELOAD:"@);
        },
        Tag::Note => {
        },
    }
}

/// A line with none of the recognized prefixes classifies as an OBSERVATION
/// tagged NOTE whose description is the whole trimmed line.
pub proof fn lemma_classify_unrecognized(s: Seq<char>)
    requires
        forall|t: Tag|
            t != Tag::Note ==> !has_prefix_ci(
                trimmed(s),
                #[trigger] prefix_lo(t),
                prefix_up(t),
            ),
    ensures
        spec_classify(s) == (EntryKind::Observation, Tag::Note, trimmed(s)),
{
    assert(prefix_lo(Tag::Bug) == "bug:"@);
    assert(!has_prefix_ci(trimmed(s), prefix_lo(Tag::Bug), prefix_up(Tag::Bug)));
    assert(!has_prefix_ci(trimmed(s), prefix_lo(Tag::Warn), prefix_up(Tag::Warn)));
    assert(!has_prefix_ci(trimmed(s), prefix_lo(Tag::Good), prefix_up(Tag::Good)));
    assert(!has_prefix_ci(trimmed(s), prefix_lo(Tag::Pass), prefix_up(Tag::Pass)));
    assert(!has_prefix_ci(trimmed(s), prefix_lo(Tag::Fail), prefix_up(Tag::Fail)));
    assert(!has_prefix_ci(trimmed(s), prefix_lo(Tag::Version), prefix_up(Tag::Version)));
    assert(!has_prefix_ci(trimmed(s), prefix_lo(Tag::Name), prefix_up(Tag::Name)));
}

/// The description field of any classification is already trimmed:
/// re-trimming it is a no-op.
pub proof fn lemma_description_trimmed(s: Seq<char>)
    ensures
        trimmed(spec_classify(s).2) == spec_classify(s).2,
{
    let t = trimmed(s);
    lemma_trimmed_idempotent(s);
    if has_prefix_ci(t, "bug:"@, "BUG:"@) {
        lemma_trimmed_idempotent(t.skip(4));
    } else if has_prefix_ci(t, "warn:"@, "WARN:"@) {
        lemma_trimmed_idempotent(t.skip(5));
    } else if has_prefix_ci(t, "good:"@, "GOOD:"@) {
        lemma_trimmed_idempotent(t.skip(5));
    } else if has_prefix_ci(t, "pass:"@, "PASS:"@) {
        lemma_trimmed_idempotent(t.skip(5));
    } else if has_prefix_ci(t, "fail:"@, "FAIL:"@) {
        lemma_trimmed_idempotent(t.skip(5));
    } else if has_prefix_ci(t, "reload:"@, "RELOAD:"@) {
        lemma_trimmed_idempotent(t.skip(7));
    } else if has_prefix_ci(t, "testcase:"@, "TESTCASE:"@) {
        lemma_trimmed_idempotent(t.skip(9));
    }
}

} // verus!
