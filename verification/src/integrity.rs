//! Audio Integrity evidence: which validator results may justify moving a file, and
//! how result pages are gathered into one index.
use vstd::prelude::*;

use vstd::hash_map::StringHashMap;
use crate::text::{chars_of, str_eq};

verus! {

/// One validator result as the Audio Integrity service reports it.
#[derive(Debug, Clone)]
pub struct Evidence {
    pub path: String,
    pub size: u64,
    /// File modification time in nanoseconds since the epoch, as decimal text.
    pub mtime_ns: String,
    pub verdict: String,
    pub authenticity: String,
    pub message: String,
    pub authenticity_message: String,
    pub validator_version: String,
}

/// What a result makes of a file.
#[derive(Debug, Clone, Copy, PartialEq, Eq, Structural)]
pub enum EvidenceCategory {
    /// The file failed to decode.
    Corrupt,
    /// The file decodes, but its content looks transcoded from a lossy source.
    LikelyLossy,
}

impl EvidenceCategory {
    /// The category name used in records and reports.
    pub open spec fn name(self) -> Seq<char> {
        match self {
            EvidenceCategory::Corrupt => "audio_corrupt"@,
            EvidenceCategory::LikelyLossy => "audio_likely_lossy"@,
        }
    }

    /// The category name used in records and reports.
    pub fn as_str(&self) -> (r: &'static str)
        ensures
            r@ == self.name(),
    {
        match self {
            EvidenceCategory::Corrupt => "audio_corrupt",
            EvidenceCategory::LikelyLossy => "audio_likely_lossy",
        }
    }
}

/// Decimal digits.
pub open spec fn is_digit(c: char) -> bool {
    '0' <= c && c <= '9'
}

/// The value of a run of decimal digits.
pub open spec fn digits_value(s: Seq<char>) -> nat
    decreases s.len(),
{
    if s.len() == 0 {
        0
    } else {
        digits_value(s.drop_last()) * 10 + (s.last() as nat - 48) as nat
    }
}

/// The digits part of a number: the text without a leading `+`.
pub open spec fn number_body(s: Seq<char>) -> Seq<char> {
    if s.len() > 0 && s[0] == '+' {
        s.drop_first()
    } else {
        s
    }
}

/// Every character is a decimal digit.
pub open spec fn all_digits(s: Seq<char>) -> bool {
    forall|i: int| 0 <= i < s.len() ==> is_digit(#[trigger] s[i])
}

/// `u128::from_str`: an optional `+`, then one or more decimal digits whose value fits.
pub open spec fn spec_parse_u128(s: Seq<char>) -> Option<u128> {
    let body = number_body(s);
    if body.len() > 0 && all_digits(body) && digits_value(body) <= u128::MAX {
        Some(digits_value(body) as u128)
    } else {
        None
    }
}

/// Parses decimal text as a `u128`, as `str::parse::<u128>` does.
pub fn parse_u128(s: &str) -> (r: Option<u128>)
    ensures
        r == spec_parse_u128(s@),
{
    let cs = chars_of(s);
    let start: usize = if cs.len() > 0 && cs[0] == '+' { 1 } else { 0 };
    let ghost body = number_body(s@);
    assert(body =~= cs@.skip(start as int));
    if start >= cs.len() {
        return None;
    }
    let mut v: u128 = 0;
    let mut i: usize = start;
    while i < cs.len()
        invariant
            start <= i <= cs@.len(),
            cs@ == s@,
            body == cs@.skip(start as int),
            body == number_body(s@),
            forall|k: int| start <= k < i ==> is_digit(#[trigger] cs@[k]),
            v as nat == digits_value(body.take(i - start)),
        decreases cs@.len() - i,
    {
        let c = cs[i];
        assert(body.take(i + 1 - start).drop_last() =~= body.take(i - start));
        assert(body.take(i + 1 - start).last() == c);
        if !('0' <= c && c <= '9') {
            assert(body[i - start] == c);
            assert(!is_digit(body[i - start]));
            assert(!all_digits(body));
            assert(spec_parse_u128(s@) is None);
            return None;
        }
        let d: u128 = (c as u32 - 48) as u128;
        if v > (u128::MAX - d) / 10 {
            proof {
                if all_digits(body) {
                    lemma_digits_value_grows(body, (i + 1 - start) as int);
                }
                assert(digits_value(body.take(i + 1 - start)) == v * 10 + d) by (nonlinear_arith)
                    requires
                        digits_value(body.take(i + 1 - start)) == digits_value(body.take(i - start)) * 10 + (c as nat - 48),
                        v as nat == digits_value(body.take(i - start)),
                        d == c as nat - 48,
                ;
                assert(v * 10 + d > u128::MAX) by (nonlinear_arith)
                    requires
                        v > (u128::MAX - d) / 10,
                        d < 10,
                ;
                assert(spec_parse_u128(s@) is None);
            }
            return None;
        }
        assert(v * 10 + d <= u128::MAX) by (nonlinear_arith)
            requires
                v <= (u128::MAX - d) / 10,
                d < 10,
        ;
        v = v * 10 + d;
        i = i + 1;
    }
    assert(body.take(cs@.len() - start) =~= body);
    assert forall|k: int| 0 <= k < body.len() implies is_digit(#[trigger] body[k]) by {
        assert(body[k] == cs@[k + start]);
    }
    assert(all_digits(body));
    Some(v)
}

/// A longer digit run is worth at least as much as its prefix, and past `u128::MAX`
/// the whole run is too.
proof fn lemma_digits_value_grows(s: Seq<char>, n: int)
    requires
        0 <= n <= s.len(),
        forall|i: int| 0 <= i < s.len() ==> is_digit(#[trigger] s[i]),
    ensures
        digits_value(s.take(n)) <= digits_value(s),
    decreases s.len(),
{
    if n < s.len() {
        let p = s.drop_last();
        assert forall|i: int| 0 <= i < p.len() implies is_digit(#[trigger] p[i]) by {
            assert(p[i] == s[i]);
        }
        lemma_digits_value_grows(p, n);
        assert(p.take(n) =~= s.take(n));
    } else {
        assert(s.take(n) =~= s);
    }
}

/// An absolute path (on Unix: starting with `/`).
pub open spec fn is_absolute_path(p: Seq<char>) -> bool {
    p.len() > 0 && p[0] == '/'
}

impl Evidence {
    /// The recorded fingerprint is that of the file: an absolute path, the same size
    /// and the exact nanosecond modification time.
    pub open spec fn spec_matches_fingerprint(self, size: u64, mtime_ns: u128) -> bool {
        is_absolute_path(self.path@) && self.size == size && spec_parse_u128(self.mtime_ns@) == Some(mtime_ns)
    }

    /// Whether the result's fingerprint matches a file's size and modification time.
    pub fn matches_fingerprint(&self, size: u64, mtime_ns: u128) -> (r: bool)
        ensures
            r == self.spec_matches_fingerprint(size, mtime_ns),
    {
        let cs = chars_of(self.path.as_str());
        cs.len() > 0 && cs[0] == '/' && self.size == size && parse_u128(self.mtime_ns.as_str()) == Some(mtime_ns)
    }

    /// Whether the result still describes a file: its fingerprint matches the file's
    /// size and modification time, and the file is a regular file on disk (`is_file`,
    /// which the caller asks the disk for).
    pub fn matches(&self, is_file: bool, size: u64, mtime_ns: u128) -> (r: bool)
        ensures
            r == (self.spec_matches_fingerprint(size, mtime_ns) && is_file),
    {
        self.matches_fingerprint(size, mtime_ns) && is_file
    }

    /// The category a result justifies: a corrupt verdict, or a healthy file whose
    /// authenticity is `likely_lossy`. Validation errors and other verdicts justify none.
    pub open spec fn spec_category(self) -> Option<EvidenceCategory> {
        if self.verdict@ == "corrupt"@ {
            Some(EvidenceCategory::Corrupt)
        } else if self.verdict@ == "healthy"@ && self.authenticity@ == "likely_lossy"@ {
            Some(EvidenceCategory::LikelyLossy)
        } else {
            None
        }
    }

    /// The category a result justifies, if any.
    pub fn category_kind(&self) -> (r: Option<EvidenceCategory>)
        ensures
            r == self.spec_category(),
    {
        if str_eq(self.verdict.as_str(), "corrupt") {
            Some(EvidenceCategory::Corrupt)
        } else if str_eq(self.verdict.as_str(), "healthy") && str_eq(self.authenticity.as_str(), "likely_lossy") {
            Some(EvidenceCategory::LikelyLossy)
        } else {
            None
        }
    }

    /// The name of the category a result justifies (`audio_corrupt` or
    /// `audio_likely_lossy`), if any.
    pub fn category(&self) -> (r: Option<&'static str>)
        ensures
            match r {
                Some(name) => self.spec_category() is Some && name@ == self.spec_category().unwrap().name(),
                None => self.spec_category() is None,
            },
    {
        match self.category_kind() {
            Some(c) => Some(c.as_str()),
            None => None,
        }
    }
}

/// Law: validation errors never qualify: only a `corrupt` verdict or a healthy,
/// likely-lossy file yields a category.
pub proof fn only_corrupt_or_lossy_qualifies(e: Evidence)
    ensures
        e.spec_category() is Some ==> e.verdict@ == "corrupt"@ || (e.verdict@ == "healthy"@
            && e.authenticity@ == "likely_lossy"@),
{
}


/// The results of one validator version, by path; a later result for a path replaces
/// an earlier one.
pub struct EvidenceIndex {
    entries: StringHashMap<Evidence>,
}

impl View for EvidenceIndex {
    type V = Map<Seq<char>, Evidence>;

    closed spec fn view(&self) -> Map<Seq<char>, Evidence> {
        self.entries@
    }
}

impl EvidenceIndex {
    /// An empty index.
    pub fn new() -> (r: EvidenceIndex)
        ensures
            r@ == Map::<Seq<char>, Evidence>::empty(),
    {
        EvidenceIndex { entries: StringHashMap::new() }
    }

    /// Records a result under its path.
    pub fn insert(&mut self, e: Evidence)
        ensures
            final(self)@ == old(self)@.insert(e.path@, e),
    {
        let key = e.path.clone();
        self.entries.insert(key, e);
    }

    /// The result recorded for a path.
    pub fn get(&self, path: &str) -> (r: Option<&Evidence>)
        ensures
            match r {
                Some(e) => self@.contains_key(path@) && *e == self@[path@],
                None => !self@.contains_key(path@),
            },
    {
        self.entries.get(path)
    }

    /// The number of paths with a result.
    pub fn len(&self) -> (r: usize)
        ensures
            r == self@.len(),
    {
        self.entries.len()
    }
}

/// Law: the index gives back the last result recorded for a path, and recording a
/// result for one path leaves every other path as it was.
pub proof fn index_read_gives_last_write(m: Map<Seq<char>, Evidence>, e: Evidence, other: Seq<char>)
    requires
        other != e.path@,
    ensures
        m.insert(e.path@, e)[e.path@] == e,
        m.insert(e.path@, e).contains_key(other) == m.contains_key(other),
        m.contains_key(other) ==> m.insert(e.path@, e)[other] == m[other],
{
}

/// A failure while gathering results.
#[derive(Debug, Clone, Copy, PartialEq, Eq, Structural)]
pub enum IntegrityError {
    /// A page came back empty before the reported total was reached.
    IncompleteResults,
}

/// The index after absorbing the results of `items` that carry the current validator version.
pub open spec fn absorb(m: Map<Seq<char>, Evidence>, items: Seq<Evidence>, version: Seq<char>) -> Map<Seq<char>, Evidence>
    decreases items.len(),
{
    if items.len() == 0 {
        m
    } else {
        let r = absorb(m, items.drop_last(), version);
        if items.last().validator_version@ == version {
            r.insert(items.last().path@, items.last())
        } else {
            r
        }
    }
}

/// Every result in the index comes from the given validator version.
pub open spec fn all_of_version(m: Map<Seq<char>, Evidence>, version: Seq<char>) -> bool {
    forall|p: Seq<char>| #[trigger] m.contains_key(p) ==> m[p].validator_version@ == version
}

/// Law: gathering keeps only results of the current validator version: an index that
/// holds only such results still does after any page, and every path it gains comes
/// from a result on that page for that path.
pub proof fn absorbed_results_are_current(m: Map<Seq<char>, Evidence>, items: Seq<Evidence>, version: Seq<char>)
    requires
        all_of_version(m, version),
    ensures
        all_of_version(absorb(m, items, version), version),
        forall|p: Seq<char>|
            #[trigger] absorb(m, items, version).contains_key(p) && !m.contains_key(p) ==> exists|i: int|
                0 <= i < items.len() && items[i].path@ == p && items[i].validator_version@ == version,
    decreases items.len(),
{
    if items.len() > 0 {
        let p = items.drop_last();
        absorbed_results_are_current(m, p, version);
        assert forall|q: Seq<char>|
            #[trigger] absorb(m, items, version).contains_key(q) && !m.contains_key(q) implies exists|i: int|
                0 <= i < items.len() && items[i].path@ == q && items[i].validator_version@ == version by {
            if absorb(m, p, version).contains_key(q) {
                let i = choose|i: int| 0 <= i < p.len() && p[i].path@ == q && p[i].validator_version@ == version;
                assert(items[i] == p[i]);
            } else {
                assert(items[items.len() - 1] == items.last());
            }
        }
    }
}

/// Absorbs one page of results that started at `offset` out of `total`: results of the
/// current validator version enter the index. Returns the next offset and whether
/// the listing is complete; an empty page before the total is an error and leaves
/// the index unchanged.
pub fn absorb_page(
    index: &mut EvidenceIndex,
    version: &str,
    items: Vec<Evidence>,
    offset: usize,
    total: usize,
) -> (r: Result<(usize, bool), IntegrityError>)
    requires
        offset + items@.len() <= usize::MAX,
    ensures
        items@.len() == 0 && offset < total ==> r == Err::<(usize, bool), IntegrityError>(
            IntegrityError::IncompleteResults,
        ) && final(index)@ == old(index)@,
        !(items@.len() == 0 && offset < total) ==> r == Ok::<(usize, bool), IntegrityError>(
            ((offset + items@.len()) as usize, offset + items@.len() >= total),
        ) && final(index)@ == absorb(old(index)@, items@, version@),
{
    if items.len() == 0 && offset < total {
        return Err(IntegrityError::IncompleteResults);
    }
    let next = offset + items.len();
    let ghost all = items@;
    let mut rest = items;
    let ghost mut k: int = 0;
    while rest.len() > 0
        invariant
            0 <= k <= all.len(),
            rest@ == all.skip(k),
            index@ == absorb(old(index)@, all.take(k), version@),
        decreases rest@.len(),
    {
        let e = rest.remove(0);
        proof {
            assert(all.take(k + 1).drop_last() =~= all.take(k));
            assert(all.take(k + 1).last() == e);
        }
        if str_eq(e.validator_version.as_str(), version) {
            index.insert(e);
        }
        proof {
            k = k + 1;
            assert(rest@ =~= all.skip(k));
        }
    }
    assert(all.take(k) =~= all);
    Ok((next, next >= total))
}

/// What the scan status says about waiting for the scan.
#[derive(Debug, Clone, Copy, PartialEq, Eq, Structural)]
pub enum ScanProgress {
    /// The scan finished.
    Completed,
    /// Still discovering, scanning or cancelling: poll again.
    Running,
    /// Any other phase: the scan did not complete.
    Failed,
}

/// The meaning of a scan phase.
pub open spec fn spec_scan_progress(phase: Option<Seq<char>>) -> ScanProgress {
    match phase {
        Some(p) => if p == "completed"@ {
            ScanProgress::Completed
        } else if p == "discovering"@ || p == "scanning"@ || p == "cancelling"@ {
            ScanProgress::Running
        } else {
            ScanProgress::Failed
        },
        None => ScanProgress::Failed,
    }
}

/// Reads the `phase` of the scan status.
pub fn scan_progress(phase: Option<&str>) -> (r: ScanProgress)
    ensures
        r == spec_scan_progress(match phase {
            Some(p) => Some(p@),
            None => None,
        }),
{
    match phase {
        Some(p) => if str_eq(p, "completed") {
            ScanProgress::Completed
        } else if str_eq(p, "discovering") || str_eq(p, "scanning") || str_eq(p, "cancelling") {
            ScanProgress::Running
        } else {
            ScanProgress::Failed
        },
        None => ScanProgress::Failed,
    }
}

} // verus!
