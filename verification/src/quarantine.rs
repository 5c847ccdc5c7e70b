//! Quarantine retention: which quarantined files have expired, read from a run's move
//! plan and its append-only outcome journal.
use vstd::prelude::*;

use crate::bindings::{parse_rfc3339, rfc3339_instant};
use crate::text::{chars_of, has_prefix, opt_text, starts_with, str_eq, string_of};
use crate::time::{days_before, spec_days_before, Instant};

verus! {

/// Options of the `quarantine-cleanup` command.
#[derive(Debug, Clone)]
pub struct Args {
    pub dry_run: bool,
}

/// Days a quarantined file is kept.
pub const RETENTION_DAYS: i64 = 30;

/// The instant before which quarantined files have expired.
pub open spec fn spec_cutoff(now: Instant) -> Instant {
    spec_days_before(now, RETENTION_DAYS)
}

/// The retention cutoff for `now`.
pub fn cutoff(now: Instant) -> (r: Instant)
    ensures
        r == spec_cutoff(now),
{
    days_before(now, RETENTION_DAYS)
}

/// Run directories of the disk cleanup are named `disk-cleanup-…`.
pub fn is_run_directory(name: &str) -> (r: bool)
    ensures
        r == has_prefix(name@, "disk-cleanup-"@),
{
    starts_with(name, "disk-cleanup-")
}

/// One entry of a move plan or outcome journal, as far as retention reads it.
#[derive(Debug, Clone)]
pub struct JournalEntry {
    /// Compact JSON text of `source_path` (`null` when absent).
    pub source_key: String,
    /// Compact JSON text of `quarantine_path` (`null` when absent).
    pub quarantine_key: String,
    /// `action`, when it is a string.
    pub action: Option<String>,
    /// `quarantined_at`, when it is a string.
    pub quarantined_at: Option<String>,
    /// `quarantine_path`, when it is a string.
    pub quarantine_path: Option<String>,
    /// `size`, when it is an unsigned integer.
    pub size: Option<u64>,
    /// `mtime_ns`, when it is an unsigned integer that fits 64 bits.
    pub mtime_ns: Option<u64>,
}

/// A retention failure.
#[derive(Debug, Clone, PartialEq, Eq)]
pub enum RetentionError {
    /// The move plan has no `created_at` text.
    MissingTimestamp,
    /// A timestamp is not RFC 3339.
    BadTimestamp(String),
    /// An expired entry has no quarantine path.
    MissingQuarantinePath,
}

/// Whether a move plan made at `created_at` may hold expired files: its time is
/// before the cutoff. A missing or unreadable time is an error.
pub open spec fn spec_plan_old_enough(created_at: Option<Seq<char>>, cutoff: Instant) -> Result<bool, ()> {
    match created_at {
        None => Err(()),
        Some(t) => match rfc3339_instant(t) {
            None => Err(()),
            Some((secs, nanos)) => Ok(Instant { secs, nanos }.spec_before(cutoff)),
        },
    }
}

/// Whether a run's move plan is old enough to look at its entries.
pub fn plan_old_enough(created_at: Option<&str>, cutoff: Instant) -> (r: Result<bool, RetentionError>)
    ensures
        match r {
            Ok(b) => spec_plan_old_enough(match created_at {
                Some(t) => Some(t@),
                None => None,
            }, cutoff) == Ok::<bool, ()>(b),
            Err(_) => spec_plan_old_enough(match created_at {
                Some(t) => Some(t@),
                None => None,
            }, cutoff) is Err,
        },
{
    match created_at {
        None => Err(RetentionError::MissingTimestamp),
        Some(t) => match parse_rfc3339(t) {
            None => Err(RetentionError::BadTimestamp(t.to_owned())),
            Some(at) => Ok(at.before(&cutoff)),
        },
    }
}

/// The entries as plain values.
pub open spec fn keys_of(v: Seq<JournalEntry>) -> Seq<(Seq<char>, Seq<char>)> {
    v.map_values(|e: JournalEntry| (e.source_key@, e.quarantine_key@))
}

/// The first entry with the same source and quarantine paths as `o`.
pub open spec fn first_match(keys: Seq<(Seq<char>, Seq<char>)>, k: (Seq<char>, Seq<char>)) -> Option<int> {
    if exists|i: int| 0 <= i < keys.len() && keys[i] == k {
        Some(choose|i: int| 0 <= i < keys.len() && keys[i] == k && (forall|j: int| 0 <= j < i ==> keys[j] != k))
    } else {
        None
    }
}

/// Applies one outcome to the plan: it replaces the first entry for the same source and
/// quarantine paths; an outcome for no planned entry changes nothing.
pub fn merge_outcome(entries: &mut Vec<JournalEntry>, outcome: JournalEntry)
    ensures
        ({
            let k = (outcome.source_key@, outcome.quarantine_key@);
            match first_match(keys_of(old(entries)@), k) {
                Some(i) => final(entries)@ == old(entries)@.update(i, outcome),
                None => final(entries)@ == old(entries)@,
            }
        }),
{
    let ghost keys = keys_of(entries@);
    let ghost k = (outcome.source_key@, outcome.quarantine_key@);
    let mut i: usize = 0;
    while i < entries.len()
        invariant
            i <= entries@.len(),
            entries@ == old(entries)@,
            keys == keys_of(entries@),
            k == (outcome.source_key@, outcome.quarantine_key@),
            forall|j: int| 0 <= j < i ==> keys[j] != k,
        decreases entries@.len() - i,
    {
        assert(keys[i as int] == (entries@[i as int].source_key@, entries@[i as int].quarantine_key@));
        if str_eq(entries[i].source_key.as_str(), outcome.source_key.as_str()) && str_eq(
            entries[i].quarantine_key.as_str(),
            outcome.quarantine_key.as_str(),
        ) {
            proof {
                assert(keys[i as int] == k);
                let w = choose|w: int| 0 <= w < keys.len() && keys[w] == k && (forall|j: int| 0 <= j < w ==> keys[j] != k);
                if w < i {
                } else if w > i {
                    assert(keys[i as int] != k);
                }
                assert(w == i);
            }
            entries.set(i, outcome);
            return;
        }
        i = i + 1;
    }
    assert(!(exists|w: int| 0 <= w < keys.len() && keys[w] == k));
}

/// Splits journal text into its complete lines (each with its `\n`); a final line
/// without `\n` is an unfinished write and is dropped. Returns the lines and the
/// unfinished rest.
pub open spec fn split_lines(s: Seq<char>) -> (Seq<Seq<char>>, Seq<char>)
    decreases s.len(),
{
    if s.len() == 0 {
        (Seq::empty(), Seq::empty())
    } else {
        let (lines, rest) = split_lines(s.drop_last());
        if s.last() == '\n' {
            (lines.push(rest.push('\n')), Seq::empty())
        } else {
            (lines, rest.push(s.last()))
        }
    }
}

/// The complete lines of the outcome journal, in order, each ending with `\n`.
pub fn complete_lines(text: &str) -> (r: Vec<String>)
    ensures
        r@.map_values(|l: String| l@) == split_lines(text@).0,
{
    let cs = chars_of(text);
    let mut lines: Vec<String> = Vec::new();
    let mut cur: Vec<char> = Vec::new();
    let mut i: usize = 0;
    while i < cs.len()
        invariant
            i <= cs@.len(),
            cs@ == text@,
            split_lines(text@.take(i as int)) == (lines@.map_values(|l: String| l@), cur@),
        decreases cs@.len() - i,
    {
        assert(text@.take(i + 1 as int).drop_last() =~= text@.take(i as int));
        assert(text@.take(i + 1 as int).last() == cs@[i as int]);
        let c = cs[i];
        cur.push(c);
        if c == '\n' {
            let ghost before = lines@.map_values(|l: String| l@);
            lines.push(string_of(cur.as_slice()));
            assert(lines@.map_values(|l: String| l@) =~= before.push(cur@));
            cur = Vec::new();
        }
        i = i + 1;
    }
    assert(text@.take(cs@.len() as int) =~= text@);
    lines
}

/// Flattens lines into one text.
pub open spec fn join_lines(lines: Seq<Seq<char>>) -> Seq<char>
    decreases lines.len(),
{
    if lines.len() == 0 {
        Seq::empty()
    } else {
        join_lines(lines.drop_last()) + lines.last()
    }
}

/// Law: the journal text is its complete lines followed by an unfinished rest; each
/// complete line ends with its only `\n`, and the rest holds no `\n`.
pub proof fn lines_cover_the_journal(s: Seq<char>)
    ensures
        join_lines(split_lines(s).0) + split_lines(s).1 == s,
        !split_lines(s).1.contains('\n'),
        forall|i: int|
            0 <= i < split_lines(s).0.len() ==> {
                let l = #[trigger] split_lines(s).0[i];
                &&& l.len() > 0
                &&& l.last() == '\n'
                &&& !l.drop_last().contains('\n')
            },
    decreases s.len(),
{
    if s.len() > 0 {
        let p = s.drop_last();
        lines_cover_the_journal(p);
        let (lines, rest) = split_lines(p);
        if s.last() == '\n' {
            let x = rest.push('\n');
            assert(lines.push(x).drop_last() =~= lines);
            assert(lines.push(x).last() == x);
            assert(join_lines(lines.push(x)) == join_lines(lines) + x);
            assert(p == join_lines(lines) + rest);
            assert(s =~= p.push('\n'));
            assert(join_lines(lines) + x =~= (join_lines(lines) + rest).push('\n'));
            assert(join_lines(lines.push(x)) + Seq::<char>::empty() =~= s);
            assert forall|i: int| 0 <= i < lines.push(x).len() implies {
                let l = #[trigger] lines.push(x)[i];
                &&& l.len() > 0
                &&& l.last() == '\n'
                &&& !l.drop_last().contains('\n')
            } by {
                if i < lines.len() {
                    assert(lines.push(x)[i] == lines[i]);
                } else {
                    assert(x.drop_last() =~= rest);
                }
            }
            assert(rest.push('\n').drop_last() =~= rest);
            assert(!Seq::<char>::empty().contains('\n'));
        } else {
            assert(p == join_lines(lines) + rest);
            assert(s =~= p.push(s.last()));
            assert(join_lines(lines) + rest.push(s.last()) =~= s);
            assert forall|c: char| rest.push(s.last()).contains(c) implies c != '\n' by {
                let i = choose|i: int| 0 <= i < rest.push(s.last()).len() && rest.push(s.last())[i] == c;
                if i < rest.len() {
                    assert(rest[i] == c);
                    assert(rest.contains(c));
                }
            }
        }
    }
}

/// The quarantine path of an entry whose file has expired at `cutoff`: the entry is
/// `quarantined` and its `quarantined_at` time is before the cutoff. Entries without a
/// transfer time never expire. An unreadable time, or an expired entry without a
/// quarantine path, is an error.
pub open spec fn spec_expired_path(e: JournalEntry, cutoff: Instant) -> Result<Option<Seq<char>>, ()> {
    if opt_text(e.action) != Some("quarantined"@) {
        Ok(None)
    } else {
        match e.quarantined_at {
            None => Ok(None),
            Some(at) => match rfc3339_instant(at@) {
                None => Err(()),
                Some((secs, nanos)) => if !(Instant { secs, nanos }).spec_before(cutoff) {
                    Ok(None)
                } else {
                    match e.quarantine_path {
                        Some(p) => Ok(Some(p@)),
                        None => Err(()),
                    }
                },
            },
        }
    }
}

/// Where an expired entry's file lies, if the entry has expired.
pub fn expired_path(e: &JournalEntry, cutoff: Instant) -> (r: Result<Option<String>, RetentionError>)
    ensures
        match r {
            Ok(Some(p)) => spec_expired_path(*e, cutoff) == Ok::<Option<Seq<char>>, ()>(Some(p@)),
            Ok(None) => spec_expired_path(*e, cutoff) == Ok::<Option<Seq<char>>, ()>(None),
            Err(_) => spec_expired_path(*e, cutoff) is Err,
        },
{
    let quarantined = match &e.action {
        Some(a) => str_eq(a.as_str(), "quarantined"),
        None => false,
    };
    if !quarantined {
        return Ok(None);
    }
    let at = match &e.quarantined_at {
        Some(at) => at,
        None => return Ok(None),
    };
    let t = match parse_rfc3339(at.as_str()) {
        Some(t) => t,
        None => return Err(RetentionError::BadTimestamp(at.clone())),
    };
    if !t.before(&cutoff) {
        return Ok(None);
    }
    match &e.quarantine_path {
        Some(p) => Ok(Some(p.clone())),
        None => Err(RetentionError::MissingQuarantinePath),
    }
}

/// Whether the quarantined file is still the one the entry recorded: the same size
/// and the same nanosecond modification time.
pub open spec fn spec_entry_unchanged(e: JournalEntry, len: u64, mtime_ns: u128) -> bool {
    e.size == Some(len) && match e.mtime_ns {
        Some(m) => m as u128 == mtime_ns,
        None => false,
    }
}

/// Whether the file on disk matches the entry.
pub fn entry_unchanged(e: &JournalEntry, len: u64, mtime_ns: u128) -> (r: bool)
    ensures
        r == spec_entry_unchanged(*e, len, mtime_ns),
{
    e.size == Some(len) && match e.mtime_ns {
        Some(m) => (m as u128) == mtime_ns,
        None => false,
    }
}

/// What the file system shows at an expired entry's quarantine path.
#[derive(Debug, Clone, Copy)]
pub struct FileFacts {
    /// A regular file (not a link or a directory).
    pub is_file: bool,
    /// Its resolved path lies inside the run's directory.
    pub inside_run: bool,
    /// Its size in bytes.
    pub len: u64,
    /// Its modification time in nanoseconds since the epoch.
    pub mtime_ns: u128,
}

/// Whether the retention run removes the file of an entry: the entry has expired and
/// its path holds a regular file inside the run's directory (`facts`, `None` when
/// nothing is there) that is unchanged. Errors are those of `spec_expired_path`.
pub open spec fn spec_may_remove(e: JournalEntry, cutoff: Instant, facts: Option<FileFacts>) -> Result<bool, ()> {
    match spec_expired_path(e, cutoff) {
        Err(()) => Err(()),
        Ok(None) => Ok(false),
        Ok(Some(_)) => match facts {
            None => Ok(false),
            Some(f) => Ok(f.is_file && f.inside_run && spec_entry_unchanged(e, f.len, f.mtime_ns)),
        },
    }
}

/// Whether the retention run removes the file of an entry, given what is at its path.
pub fn may_remove(e: &JournalEntry, cutoff: Instant, facts: Option<FileFacts>) -> (r: Result<bool, RetentionError>)
    ensures
        match r {
            Ok(b) => spec_may_remove(*e, cutoff, facts) == Ok::<bool, ()>(b),
            Err(_) => spec_may_remove(*e, cutoff, facts) is Err,
        },
{
    match expired_path(e, cutoff) {
        Err(err) => Err(err),
        Ok(None) => Ok(false),
        Ok(Some(_)) => match facts {
            None => Ok(false),
            Some(f) => Ok(f.is_file && f.inside_run && entry_unchanged(e, f.len, f.mtime_ns)),
        },
    }
}

/// Law: the retention run removes only an unchanged regular file inside the run's
/// directory whose entry is `quarantined` with a readable transfer time at least 30
/// days before `now`.
pub proof fn removal_needs_old_unchanged_quarantined_file(e: JournalEntry, now: Instant, facts: Option<FileFacts>)
    ensures
        spec_may_remove(e, spec_cutoff(now), facts) == Ok::<bool, ()>(true) ==> {
            &&& opt_text(e.action) == Some("quarantined"@)
            &&& e.quarantined_at is Some
            &&& rfc3339_instant(e.quarantined_at.unwrap()@) is Some
            &&& ({
                let (secs, nanos) = rfc3339_instant(e.quarantined_at.unwrap()@).unwrap();
                Instant { secs, nanos }.spec_before(spec_cutoff(now))
            })
            &&& facts is Some
            &&& facts.unwrap().is_file
            &&& facts.unwrap().inside_run
            &&& spec_entry_unchanged(e, facts.unwrap().len, facts.unwrap().mtime_ns)
        },
{
    only_old_quarantined_files_expire(e, now);
}

/// Law: a file is removed only when its size is the size the entry recorded and its
/// modification time is, to the nanosecond, the time the entry recorded; for a due
/// entry and a regular file inside the run's directory, that is also enough.
pub proof fn removal_needs_recorded_size_and_time(e: JournalEntry, cutoff: Instant, f: FileFacts)
    ensures
        spec_may_remove(e, cutoff, Some(f)) == Ok::<bool, ()>(true) ==> e.size == Some(f.len) && e.mtime_ns is Some
            && e.mtime_ns.unwrap() as u128 == f.mtime_ns,
        spec_expired_path(e, cutoff) matches Ok(Some(_)) && f.is_file && f.inside_run ==> (spec_may_remove(
            e,
            cutoff,
            Some(f),
        ) == Ok::<bool, ()>(true) <==> (e.size == Some(f.len) && e.mtime_ns is Some && e.mtime_ns.unwrap() as u128
            == f.mtime_ns)),
{
}

/// Law: only files moved into quarantine at least 30 days before `now` expire;
/// entries that are not `quarantined`, or carry no transfer time, never do.
pub proof fn only_old_quarantined_files_expire(e: JournalEntry, now: Instant)
    ensures
        spec_expired_path(e, spec_cutoff(now)) matches Ok(Some(_)) ==> opt_text(e.action) == Some("quarantined"@)
            && e.quarantined_at is Some && rfc3339_instant(e.quarantined_at.unwrap()@) is Some && ({
            let (secs, nanos) = rfc3339_instant(e.quarantined_at.unwrap()@).unwrap();
            Instant { secs, nanos }.spec_before(spec_cutoff(now))
        }),
        e.quarantined_at is None ==> spec_expired_path(e, spec_cutoff(now)) == Ok::<Option<Seq<char>>, ()>(None),
{
}

} // verus!
