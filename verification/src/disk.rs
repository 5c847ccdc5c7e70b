//! Disk cleanup: which media files are stale, which ones Lidarr or the integrity
//! validator rule out, how many of them one run may move, and where they go.
use vstd::prelude::*;
use vstd::hash_map::{HashMapWithView, StringHashMap};

use crate::bindings::{joined_path, path_is_file, path_join, path_strip_prefix, stripped_path, utc_now_millis};
use crate::config::DiskConfig;
use crate::integrity::{Evidence, EvidenceCategory, EvidenceIndex};
use crate::lidarr::{Album, Artist, ManualImportItem, TrackFile};
use crate::text::{chars_of, copy_opt_string, opt_text, push_str, string_of};

verus! {

broadcast use vstd::std_specs::hash::group_hash_axioms;

// ------------------------------------------------------------ records

/// Why a file appears in the manifest.
#[derive(Debug, Clone, Copy, PartialEq, Eq, Structural)]
pub enum Category {
    /// Modified within the stale window; never moved.
    ReportOnly,
    /// The integrity validator found the file corrupt.
    AudioCorrupt,
    /// The integrity validator found a healthy file that looks transcoded from lossy audio.
    AudioLikelyLossy,
    /// A Lidarr track file on an unmonitored album.
    KnownUnmonitoredAlbum,
    /// Not a Lidarr track file, but Lidarr's manual import lists it.
    DuplicateLowerQuality,
    /// Neither a track file nor listed by the manual import.
    UnknownToLidarr,
}

impl Category {
    /// The category name used in manifests and reports.
    pub open spec fn name(self) -> Seq<char> {
        match self {
            Category::ReportOnly => "report_only"@,
            Category::AudioCorrupt => "audio_corrupt"@,
            Category::AudioLikelyLossy => "audio_likely_lossy"@,
            Category::KnownUnmonitoredAlbum => "known_unmonitored_album"@,
            Category::DuplicateLowerQuality => "duplicate_lower_quality"@,
            Category::UnknownToLidarr => "unknown_to_lidarr"@,
        }
    }

    /// The category name used in manifests and reports.
    pub fn as_str(&self) -> (r: &'static str)
        ensures
            r@ == self.name(),
    {
        match self {
            Category::ReportOnly => "report_only",
            Category::AudioCorrupt => "audio_corrupt",
            Category::AudioLikelyLossy => "audio_likely_lossy",
            Category::KnownUnmonitoredAlbum => "known_unmonitored_album",
            Category::DuplicateLowerQuality => "duplicate_lower_quality",
            Category::UnknownToLidarr => "unknown_to_lidarr",
        }
    }

    /// Categories whose files a run may move.
    pub open spec fn spec_movable(self) -> bool {
        !(self is ReportOnly)
    }

    /// Categories of files that Lidarr does not track.
    pub open spec fn spec_untracked(self) -> bool {
        self is DuplicateLowerQuality || self is UnknownToLidarr
    }
}

/// The category that an integrity result justifies.
pub open spec fn evidence_category(c: EvidenceCategory) -> Category {
    match c {
        EvidenceCategory::Corrupt => Category::AudioCorrupt,
        EvidenceCategory::LikelyLossy => Category::AudioLikelyLossy,
    }
}

/// What the run did with a file.
#[derive(Debug, Clone, Copy, PartialEq, Eq, Structural)]
pub enum Action {
    /// Listed only.
    ReportOnly,
    /// Movable, but over the run's file or byte limit.
    SkippedLimit,
    /// Would be moved in apply mode.
    DryRun,
    /// Moved into quarantine.
    Quarantined,
    /// Chosen for a move that has not happened yet.
    Pending,
    /// The move was refused or failed; the file stays.
    MoveFailed,
}

impl Action {
    /// The action name used in manifests and reports.
    pub open spec fn name(self) -> Seq<char> {
        match self {
            Action::ReportOnly => "report_only"@,
            Action::SkippedLimit => "skipped_limit"@,
            Action::DryRun => "dry_run"@,
            Action::Quarantined => "quarantined"@,
            Action::Pending => "pending"@,
            Action::MoveFailed => "move_failed"@,
        }
    }

    /// The action name used in manifests and reports.
    pub fn as_str(&self) -> (r: &'static str)
        ensures
            r@ == self.name(),
    {
        match self {
            Action::ReportOnly => "report_only",
            Action::SkippedLimit => "skipped_limit",
            Action::DryRun => "dry_run",
            Action::Quarantined => "quarantined",
            Action::Pending => "pending",
            Action::MoveFailed => "move_failed",
        }
    }
}

/// A media file found on disk.
#[derive(Debug, Clone)]
pub struct FsFile {
    pub source_path: String,
    /// The same file as Lidarr names it.
    pub lidarr_path: String,
    pub size: u64,
    pub mtime_ms: i64,
    pub mtime_ns: u128,
}

/// A manifest entry: a file, why it is listed, and what the run did with it.
#[derive(Debug)]
pub struct Record {
    pub mtime_ns: u128,
    pub quarantined_at: Option<String>,
    pub category: Category,
    pub reason: String,
    pub source_path: String,
    pub lidarr_path: String,
    pub quarantine_path: String,
    pub size: u64,
    pub artist_id: Option<i64>,
    pub album_id: Option<i64>,
    pub track_file_id: Option<i64>,
    pub action: Action,
    pub selected_for_move: bool,
    /// Whether Lidarr tracks the file.
    pub active_known: bool,
    pub artist_path: Option<String>,
}

/// A manifest entry as plain values.
pub struct RecordView {
    pub mtime_ns: u128,
    pub quarantined_at: Option<Seq<char>>,
    pub category: Category,
    pub reason: Seq<char>,
    pub source_path: Seq<char>,
    pub lidarr_path: Seq<char>,
    pub quarantine_path: Seq<char>,
    pub size: u64,
    pub artist_id: Option<i64>,
    pub album_id: Option<i64>,
    pub track_file_id: Option<i64>,
    pub action: Action,
    pub selected_for_move: bool,
    pub active_known: bool,
    pub artist_path: Option<Seq<char>>,
}

impl View for Record {
    type V = RecordView;

    open spec fn view(&self) -> RecordView {
        RecordView {
            mtime_ns: self.mtime_ns,
            quarantined_at: opt_text(self.quarantined_at),
            category: self.category,
            reason: self.reason@,
            source_path: self.source_path@,
            lidarr_path: self.lidarr_path@,
            quarantine_path: self.quarantine_path@,
            size: self.size,
            artist_id: self.artist_id,
            album_id: self.album_id,
            track_file_id: self.track_file_id,
            action: self.action,
            selected_for_move: self.selected_for_move,
            active_known: self.active_known,
            artist_path: opt_text(self.artist_path),
        }
    }
}

/// The records as plain values.
pub open spec fn records_view(v: Seq<Record>) -> Seq<RecordView> {
    v.map_values(|r: Record| r@)
}

/// A cleanup failure.
#[derive(Debug)]
pub enum DiskError {
    /// The file does not lie under the music root.
    OutsideMusicRoot(String),
}

// ------------------------------------------------------------ paths

/// A Lidarr-style path: backslashes become slashes and the path starts with `/`.
pub open spec fn spec_normalize_path(s: Seq<char>) -> Seq<char> {
    let r = s.map_values(|c: char| if c == '\\' { '/' } else { c });
    if r.len() > 0 && r[0] == '/' {
        r
    } else {
        seq!['/'] + r
    }
}

/// Normalizes a path for comparison with Lidarr's paths.
pub fn normalize_path(value: &str) -> (r: String)
    ensures
        r@ == spec_normalize_path(value@),
{
    let cs = chars_of(value);
    let ghost mapped = value@.map_values(|c: char| if c == '\\' { '/' } else { c });
    let mut out: Vec<char> = Vec::new();
    let mut i: usize = 0;
    while i < cs.len()
        invariant
            i <= cs@.len(),
            cs@ == value@,
            mapped == value@.map_values(|c: char| if c == '\\' { '/' } else { c }),
            out@ == mapped.take(i as int),
        decreases cs@.len() - i,
    {
        let c = cs[i];
        out.push(if c == '\\' { '/' } else { c });
        assert(mapped.take(i + 1 as int) =~= mapped.take(i as int).push(mapped[i as int]));
        i = i + 1;
    }
    assert(mapped.take(cs@.len() as int) =~= mapped);
    if out.len() > 0 && out[0] == '/' {
        string_of(out.as_slice())
    } else {
        let mut r: Vec<char> = Vec::new();
        r.push('/');
        let ghost before = r@;
        let mut j: usize = 0;
        while j < out.len()
            invariant
                j <= out@.len(),
                r@ == seq!['/'] + out@.take(j as int),
            decreases out@.len() - j,
        {
            r.push(out[j]);
            assert(out@.take(j + 1 as int) =~= out@.take(j as int).push(out@[j as int]));
            j = j + 1;
        }
        assert(out@.take(out@.len() as int) =~= out@);
        string_of(r.as_slice())
    }
}

/// Law: a normalized path starts with `/`, holds no backslash, and normalizing it
/// again changes nothing.
pub proof fn normalize_path_is_idempotent(s: Seq<char>)
    ensures
        spec_normalize_path(s).len() > 0,
        spec_normalize_path(s)[0] == '/',
        forall|i: int| 0 <= i < spec_normalize_path(s).len() ==> #[trigger] spec_normalize_path(s)[i] != '\\',
        spec_normalize_path(spec_normalize_path(s)) == spec_normalize_path(s),
{
    let n = spec_normalize_path(s);
    assert forall|i: int| 0 <= i < n.len() implies #[trigger] n[i] != '\\' by {
        let r = s.map_values(|c: char| if c == '\\' { '/' } else { c });
        if !(r.len() > 0 && r[0] == '/') && i > 0 {
            assert(n[i] == r[i - 1]);
        }
    }
    assert(n.map_values(|c: char| if c == '\\' { '/' } else { c }) =~= n);
}

/// Where a file under `root` goes under `quarantine`: the same relative path, or
/// nothing when the file is not under `root`.
pub open spec fn spec_destination(root: Seq<char>, quarantine: Seq<char>, source: Seq<char>) -> Option<Seq<char>> {
    match stripped_path(source, root) {
        Some(rel) => Some(joined_path(quarantine, rel)),
        None => None,
    }
}

/// The quarantine path of a file: its path relative to the music root, under the
/// quarantine directory.
pub fn destination(root: &str, quarantine: &str, source: &str) -> (r: Result<String, DiskError>)
    ensures
        match r {
            Ok(p) => spec_destination(root@, quarantine@, source@) == Some(p@),
            Err(DiskError::OutsideMusicRoot(s)) => spec_destination(root@, quarantine@, source@) is None && s@
                == source@,
        },
{
    match path_strip_prefix(source, root) {
        Some(rel) => Ok(path_join(quarantine, rel.as_str())),
        None => Err(DiskError::OutsideMusicRoot(source.to_owned())),
    }
}

/// Audio file extensions that the scan considers (lower case).
pub open spec fn spec_is_audio_extension(ext: Seq<char>) -> bool {
    ext == "mp3"@ || ext == "flac"@ || ext == "m4a"@ || ext == "aac"@ || ext == "ogg"@ || ext == "opus"@
        || ext == "wav"@ || ext == "aiff"@ || ext == "alac"@ || ext == "ape"@
}

/// Whether a lower-cased file extension names an audio format the cleanup handles.
pub fn is_audio_extension(ext: &str) -> (r: bool)
    ensures
        r == spec_is_audio_extension(ext@),
{
    crate::text::str_eq(ext, "mp3") || crate::text::str_eq(ext, "flac") || crate::text::str_eq(ext, "m4a")
        || crate::text::str_eq(ext, "aac") || crate::text::str_eq(ext, "ogg") || crate::text::str_eq(ext, "opus")
        || crate::text::str_eq(ext, "wav") || crate::text::str_eq(ext, "aiff") || crate::text::str_eq(ext, "alac")
        || crate::text::str_eq(ext, "ape")
}

/// How Lidarr names a file: its root joined with the relative path (backslashes as
/// slashes), normalized.
pub open spec fn spec_lidarr_path(lidarr_root: Seq<char>, rel: Seq<char>) -> Seq<char> {
    spec_normalize_path(
        crate::text::trim_end_char(lidarr_root, '/') + "/"@ + rel.map_values(
            |c: char| if c == '\\' { '/' } else { c },
        ),
    )
}

/// The Lidarr path of a file found at `rel` under the music root.
pub fn lidarr_path_for(lidarr_root: &str, rel: &str) -> (r: String)
    ensures
        r@ == spec_lidarr_path(lidarr_root@, rel@),
{
    let mut v = chars_of(lidarr_root);
    crate::text::trim_end_in_place(&mut v, '/');
    push_str(&mut v, "/");
    let rs = chars_of(rel);
    let ghost start = v@;
    let ghost mapped = rel@.map_values(|c: char| if c == '\\' { '/' } else { c });
    let mut i: usize = 0;
    while i < rs.len()
        invariant
            i <= rs@.len(),
            rs@ == rel@,
            mapped == rel@.map_values(|c: char| if c == '\\' { '/' } else { c }),
            v@ == start + mapped.take(i as int),
        decreases rs@.len() - i,
    {
        let c = rs[i];
        v.push(if c == '\\' { '/' } else { c });
        assert(mapped.take(i + 1 as int) =~= mapped.take(i as int).push(mapped[i as int]));
        i = i + 1;
    }
    assert(mapped.take(rs@.len() as int) =~= mapped);
    let joined = string_of(v.as_slice());
    normalize_path(joined.as_str())
}


// ------------------------------------------------------------ lookups

/// Positions by integer key; a later element with the same key replaces an earlier one.
pub open spec fn id_index<T>(s: Seq<T>, key: spec_fn(T) -> Option<i64>) -> Map<i64, usize>
    decreases s.len(),
{
    if s.len() == 0 {
        Map::empty()
    } else {
        let m = id_index(s.drop_last(), key);
        match key(s.last()) {
            Some(k) => m.insert(k, (s.len() - 1) as usize),
            None => m,
        }
    }
}

/// Positions by text key; a later element with the same key replaces an earlier one.
pub open spec fn text_index<T>(s: Seq<T>, key: spec_fn(T) -> Option<Seq<char>>) -> Map<Seq<char>, usize>
    decreases s.len(),
{
    if s.len() == 0 {
        Map::empty()
    } else {
        let m = text_index(s.drop_last(), key);
        match key(s.last()) {
            Some(k) => m.insert(k, (s.len() - 1) as usize),
            None => m,
        }
    }
}

/// Every position in an integer index points at an element with that key.
pub proof fn lemma_id_index_in_range<T>(s: Seq<T>, key: spec_fn(T) -> Option<i64>)
    requires
        s.len() <= usize::MAX,
    ensures
        forall|k: i64|
            #[trigger] id_index(s, key).contains_key(k) ==> id_index(s, key)[k] < s.len() && key(
                s[id_index(s, key)[k] as int],
            ) == Some(k),
    decreases s.len(),
{
    if s.len() > 0 {
        let p = s.drop_last();
        lemma_id_index_in_range(p, key);
        assert forall|k: i64| #[trigger] id_index(s, key).contains_key(k) implies id_index(s, key)[k] < s.len() && key(
            s[id_index(s, key)[k] as int],
        ) == Some(k) by {
            if id_index(p, key).contains_key(k) && id_index(s, key)[k] == id_index(p, key)[k] {
                assert(s[id_index(p, key)[k] as int] == p[id_index(p, key)[k] as int]);
            }
        }
    }
}

/// Every position in a text index points at an element with that key.
pub proof fn lemma_text_index_in_range<T>(s: Seq<T>, key: spec_fn(T) -> Option<Seq<char>>)
    requires
        s.len() <= usize::MAX,
    ensures
        forall|k: Seq<char>|
            #[trigger] text_index(s, key).contains_key(k) ==> text_index(s, key)[k] < s.len() && key(
                s[text_index(s, key)[k] as int],
            ) == Some(k),
    decreases s.len(),
{
    if s.len() > 0 {
        let p = s.drop_last();
        lemma_text_index_in_range(p, key);
        assert forall|k: Seq<char>| #[trigger] text_index(s, key).contains_key(k) implies text_index(s, key)[k] < s.len() && key(
            s[text_index(s, key)[k] as int],
        ) == Some(k) by {
            if text_index(p, key).contains_key(k) && text_index(s, key)[k] == text_index(p, key)[k] {
                assert(s[text_index(p, key)[k] as int] == p[text_index(p, key)[k] as int]);
            }
        }
    }
}

/// Artists by id.
pub open spec fn artist_index(s: Seq<Artist>) -> Map<i64, usize> {
    id_index(s, |a: Artist| a.id)
}

/// Albums by id.
pub open spec fn album_index(s: Seq<Album>) -> Map<i64, usize> {
    id_index(s, |a: Album| a.id)
}

/// The normalized path of a track file, when it has one.
pub open spec fn track_file_key(t: TrackFile) -> Option<Seq<char>> {
    match t.path {
        Some(p) => Some(spec_normalize_path(p@)),
        None => None,
    }
}

/// Track files by normalized path.
pub open spec fn track_file_index(s: Seq<TrackFile>) -> Map<Seq<char>, usize> {
    text_index(s, |t: TrackFile| track_file_key(t))
}

/// The normalized path of a manual-import item, when it has one.
pub open spec fn manual_key(m: ManualImportItem) -> Option<Seq<char>> {
    match m.path {
        Some(p) => Some(spec_normalize_path(p@)),
        None => None,
    }
}

/// Manual-import items by normalized path.
pub open spec fn manual_index(s: Seq<ManualImportItem>) -> Map<Seq<char>, usize> {
    text_index(s, |m: ManualImportItem| manual_key(m))
}

fn index_artists(s: &[Artist]) -> (m: HashMapWithView<i64, usize>)
    ensures
        m@ == artist_index(s@),
{
    let mut m: HashMapWithView<i64, usize> = HashMapWithView::new();
    let mut i: usize = 0;
    while i < s.len()
        invariant
            i <= s@.len(),
            m@ == artist_index(s@.take(i as int)),
        decreases s@.len() - i,
    {
        assert(s@.take(i + 1 as int).drop_last() == s@.take(i as int));
        assert(s@.take(i + 1 as int).last() == s@[i as int]);
        if let Some(id) = s[i].id {
            m.insert(id, i);
        }
        i = i + 1;
    }
    assert(s@.take(s@.len() as int) == s@);
    m
}

fn index_albums(s: &[Album]) -> (m: HashMapWithView<i64, usize>)
    ensures
        m@ == album_index(s@),
{
    let mut m: HashMapWithView<i64, usize> = HashMapWithView::new();
    let mut i: usize = 0;
    while i < s.len()
        invariant
            i <= s@.len(),
            m@ == album_index(s@.take(i as int)),
        decreases s@.len() - i,
    {
        assert(s@.take(i + 1 as int).drop_last() == s@.take(i as int));
        assert(s@.take(i + 1 as int).last() == s@[i as int]);
        if let Some(id) = s[i].id {
            m.insert(id, i);
        }
        i = i + 1;
    }
    assert(s@.take(s@.len() as int) == s@);
    m
}

fn index_track_files(s: &[TrackFile]) -> (m: StringHashMap<usize>)
    ensures
        m@ == track_file_index(s@),
{
    let mut m: StringHashMap<usize> = StringHashMap::new();
    let mut i: usize = 0;
    while i < s.len()
        invariant
            i <= s@.len(),
            m@ == track_file_index(s@.take(i as int)),
        decreases s@.len() - i,
    {
        assert(s@.take(i + 1 as int).drop_last() == s@.take(i as int));
        assert(s@.take(i + 1 as int).last() == s@[i as int]);
        if let Some(p) = &s[i].path {
            m.insert(normalize_path(p.as_str()), i);
        }
        i = i + 1;
    }
    assert(s@.take(s@.len() as int) == s@);
    m
}

fn index_manual(s: &[ManualImportItem]) -> (m: StringHashMap<usize>)
    ensures
        m@ == manual_index(s@),
{
    let mut m: StringHashMap<usize> = StringHashMap::new();
    let mut i: usize = 0;
    while i < s.len()
        invariant
            i <= s@.len(),
            m@ == manual_index(s@.take(i as int)),
        decreases s@.len() - i,
    {
        assert(s@.take(i + 1 as int).drop_last() == s@.take(i as int));
        assert(s@.take(i + 1 as int).last() == s@[i as int]);
        if let Some(p) = &s[i].path {
            m.insert(normalize_path(p.as_str()), i);
        }
        i = i + 1;
    }
    assert(s@.take(s@.len() as int) == s@);
    m
}

/// The artist with an id (the last one listed).
pub open spec fn lookup_artist(artists: Seq<Artist>, id: i64) -> Option<Artist> {
    if artist_index(artists).contains_key(id) {
        Some(artists[artist_index(artists)[id] as int])
    } else {
        None
    }
}

/// The album with an id (the last one listed).
pub open spec fn lookup_album(albums: Seq<Album>, id: i64) -> Option<Album> {
    if album_index(albums).contains_key(id) {
        Some(albums[album_index(albums)[id] as int])
    } else {
        None
    }
}

/// The track file at a normalized path (the last one listed).
pub open spec fn lookup_track_file(track_files: Seq<TrackFile>, path: Seq<char>) -> Option<TrackFile> {
    if track_file_index(track_files).contains_key(path) {
        Some(track_files[track_file_index(track_files)[path] as int])
    } else {
        None
    }
}

/// The artist folder of an artist id, when the artist is known and has one.
pub open spec fn spec_artist_path(artists: Seq<Artist>, artist_id: Option<i64>) -> Option<Seq<char>> {
    match artist_id {
        Some(id) => match lookup_artist(artists, id) {
            Some(a) => opt_text(a.path),
            None => None,
        },
        None => None,
    }
}

// ------------------------------------------------------------ classification

/// The manifest entry for a file, before any limit applies.
pub open spec fn make_record(
    file: FsFile,
    category: Category,
    reason: Seq<char>,
    artist_id: Option<i64>,
    album_id: Option<i64>,
    track_file_id: Option<i64>,
    active_known: bool,
    artist_path: Option<Seq<char>>,
    quarantine_path: Seq<char>,
) -> RecordView {
    RecordView {
        mtime_ns: file.mtime_ns,
        quarantined_at: None,
        category,
        reason,
        source_path: file.source_path@,
        lidarr_path: file.lidarr_path@,
        quarantine_path,
        size: file.size,
        artist_id,
        album_id,
        track_file_id,
        action: Action::ReportOnly,
        selected_for_move: false,
        active_known,
        artist_path,
    }
}

/// The manifest entry of a file: category, reason and Lidarr identifiers, with the
/// file's quarantine path under the quarantine root.
pub fn record(
    cfg: &DiskConfig,
    file: &FsFile,
    category: Category,
    reason: &str,
    artist_id: Option<i64>,
    album_id: Option<i64>,
    track_file_id: Option<i64>,
    active_known: bool,
    artist_path: Option<String>,
) -> (r: Result<Record, DiskError>)
    ensures
        match r {
            Ok(rec) => spec_destination(cfg.music_root@, cfg.quarantine_root@, file.source_path@) is Some
                && rec@ == make_record(
                *file,
                category,
                reason@,
                artist_id,
                album_id,
                track_file_id,
                active_known,
                opt_text(artist_path),
                spec_destination(cfg.music_root@, cfg.quarantine_root@, file.source_path@).unwrap(),
            ),
            Err(DiskError::OutsideMusicRoot(p)) => spec_destination(
                cfg.music_root@,
                cfg.quarantine_root@,
                file.source_path@,
            ) is None && p@ == file.source_path@,
        },
{
    let quarantine_path = destination(cfg.music_root.as_str(), cfg.quarantine_root.as_str(), file.source_path.as_str())?;
    Ok(Record {
        mtime_ns: file.mtime_ns,
        quarantined_at: None,
        category,
        reason: reason.to_owned(),
        source_path: file.source_path.clone(),
        lidarr_path: file.lidarr_path.clone(),
        quarantine_path,
        size: file.size,
        artist_id,
        album_id,
        track_file_id,
        action: Action::ReportOnly,
        selected_for_move: false,
        active_known,
        artist_path,
    })
}

/// The modification time (ms) after which a file counts as recent.
pub open spec fn stale_before(now_ms: i64, stale_hours: i64) -> int {
    now_ms as int - stale_hours as int * 3_600_000
}

/// The integrity reason text: the validator's message and its authenticity message.
pub open spec fn evidence_reason(e: Evidence) -> Seq<char> {
    e.message@ + "; "@ + e.authenticity_message@
}

/// The track file id's owner and album, as the record carries them.
pub open spec fn tf_artist(t: Option<TrackFile>) -> Option<i64> {
    match t {
        Some(f) => f.artist_id,
        None => None,
    }
}

/// The album id of an optional track file.
pub open spec fn tf_album(t: Option<TrackFile>) -> Option<i64> {
    match t {
        Some(f) => f.album_id,
        None => None,
    }
}

/// The id of an optional track file.
pub open spec fn tf_id(t: Option<TrackFile>) -> Option<i64> {
    match t {
        Some(f) => f.id,
        None => None,
    }
}

/// Whether Lidarr lists the album as unmonitored.
pub open spec fn album_unmonitored(albums: Seq<Album>, album_id: Option<i64>) -> bool {
    match album_id {
        Some(id) => match lookup_album(albums, id) {
            Some(a) => a.monitored == Some(false),
            None => false,
        },
        None => false,
    }
}

/// The integrity category that a file qualifies for: the result recorded for its path
/// (as the validator sees it) matches its fingerprint, the file is a regular file
/// (`present`), and the result justifies a category.
pub open spec fn integrity_category(
    evidence: Map<Seq<char>, Evidence>,
    integrity_path: Seq<char>,
    file: FsFile,
    present: bool,
) -> Option<Category> {
    if evidence.contains_key(integrity_path) && evidence[integrity_path].spec_matches_fingerprint(file.size, file.mtime_ns)
        && present {
        match evidence[integrity_path].spec_category() {
            Some(c) => Some(evidence_category(c)),
            None => None,
        }
    } else {
        None
    }
}

/// The classification of one file at `now_ms` once its paths are known: its
/// quarantine path `qpath` and the path `ipath` under which the validator knows it.
/// A recent file gets a report-only entry; otherwise an integrity entry when
/// validator evidence justifies one; an entry for a Lidarr track file only when its
/// album is unmonitored (no entry otherwise); for other files,
/// `duplicate_lower_quality` when the manual import lists them and
/// `unknown_to_lidarr` when not. `present` is whether the file is a regular file.
pub open spec fn spec_classify_located(
    cfg: DiskConfig,
    now_ms: i64,
    file: FsFile,
    qpath: Seq<char>,
    ipath: Seq<char>,
    artists: Seq<Artist>,
    albums: Seq<Album>,
    track_files: Seq<TrackFile>,
    manual: Seq<ManualImportItem>,
    evidence: Map<Seq<char>, Evidence>,
    present: bool,
) -> Option<RecordView> {
    let key = file.lidarr_path@;
    let active = lookup_track_file(track_files, key);
    if file.mtime_ms as int > stale_before(now_ms, cfg.stale_hours) {
        Some(
            make_record(
                file,
                Category::ReportOnly,
                "file_newer_than_stale_hours"@,
                None,
                None,
                None,
                false,
                None,
                qpath,
            ),
        )
    } else {
        match integrity_category(evidence, ipath, file, present) {
            Some(c) => Some(
                make_record(
                    file,
                    c,
                    evidence_reason(evidence[ipath]),
                    tf_artist(active),
                    tf_album(active),
                    tf_id(active),
                    active is Some,
                    spec_artist_path(artists, tf_artist(active)),
                    qpath,
                ),
            ),
            None => if active is Some {
                if album_unmonitored(albums, tf_album(active)) {
                    Some(
                        make_record(
                            file,
                            Category::KnownUnmonitoredAlbum,
                            "active_lidarr_file_on_unmonitored_album"@,
                            tf_artist(active),
                            tf_album(active),
                            tf_id(active),
                            true,
                            spec_artist_path(artists, tf_artist(active)),
                            qpath,
                        ),
                    )
                } else {
                    None
                }
            } else if manual_index(manual).contains_key(key) {
                Some(
                    make_record(
                        file,
                        Category::DuplicateLowerQuality,
                        "manual_import_mapping_exists_but_file_is_not_active"@,
                        None,
                        None,
                        None,
                        false,
                        None,
                        qpath,
                    ),
                )
            } else {
                Some(
                    make_record(
                        file,
                        Category::UnknownToLidarr,
                        "not_active_and_not_seen_by_manual_import"@,
                        None,
                        None,
                        None,
                        false,
                        None,
                        qpath,
                    ),
                )
            },
        }
    }
}

/// The classification of one file at `now_ms`: an error when the file is not under the
/// music root; otherwise its classification with its quarantine path under the
/// quarantine root and its validator path under the validator's music root.
pub open spec fn spec_classify_file(
    cfg: DiskConfig,
    now_ms: i64,
    file: FsFile,
    artists: Seq<Artist>,
    albums: Seq<Album>,
    track_files: Seq<TrackFile>,
    manual: Seq<ManualImportItem>,
    evidence: Map<Seq<char>, Evidence>,
    present: bool,
) -> Result<Option<RecordView>, Seq<char>> {
    match stripped_path(file.source_path@, cfg.music_root@) {
        None => Err(file.source_path@),
        Some(rel) => Ok(
            spec_classify_located(
                cfg,
                now_ms,
                file,
                joined_path(cfg.quarantine_root@, rel),
                joined_path(cfg.integrity_music_root@, rel),
                artists,
                albums,
                track_files,
                manual,
                evidence,
                present,
            ),
        ),
    }
}

/// The classification of all files in order; the first file outside the music root
/// makes it an error.
pub open spec fn spec_classify_all(
    cfg: DiskConfig,
    now_ms: i64,
    files: Seq<FsFile>,
    artists: Seq<Artist>,
    albums: Seq<Album>,
    track_files: Seq<TrackFile>,
    manual: Seq<ManualImportItem>,
    evidence: Map<Seq<char>, Evidence>,
    present: Seq<bool>,
) -> Result<Seq<RecordView>, Seq<char>>
    decreases files.len(),
{
    if files.len() == 0 {
        Ok(Seq::empty())
    } else {
        match spec_classify_all(cfg, now_ms, files.drop_last(), artists, albums, track_files, manual, evidence, present.drop_last()) {
            Err(e) => Err(e),
            Ok(rs) => match spec_classify_file(
                cfg,
                now_ms,
                files.last(),
                artists,
                albums,
                track_files,
                manual,
                evidence,
                present.last(),
            ) {
                Err(e) => Err(e),
                Ok(None) => Ok(rs),
                Ok(Some(r)) => Ok(rs.push(r)),
            },
        }
    }
}

/// Law: a file modified within the stale window is only reported, whatever Lidarr or
/// the validator say of it; such a record is never a move candidate.
pub proof fn recent_files_are_report_only(
    cfg: DiskConfig,
    now_ms: i64,
    file: FsFile,
    artists: Seq<Artist>,
    albums: Seq<Album>,
    track_files: Seq<TrackFile>,
    manual: Seq<ManualImportItem>,
    evidence: Map<Seq<char>, Evidence>,
    present: bool,
)
    requires
        stripped_path(file.source_path@, cfg.music_root@) is Some,
        file.mtime_ms as int > stale_before(now_ms, cfg.stale_hours),
    ensures
        ({
            let r = spec_classify_file(cfg, now_ms, file, artists, albums, track_files, manual, evidence, present);
            &&& r matches Ok(Some(rec))
            &&& rec.category == Category::ReportOnly
            &&& rec.reason == "file_newer_than_stale_hours"@
            &&& !rec.active_known
            &&& !spec_considered(rec, cfg.clean_untracked)
        }),
{
}

/// Law: a file modified less than `stale_hours` hours (of 3,600,000 ms each) before
/// `now_ms` gets a report-only entry whatever else is known of it, and a report-only
/// entry is given to such files only.
pub proof fn recent_means_within_stale_hours(
    cfg: DiskConfig,
    now_ms: i64,
    file: FsFile,
    qpath: Seq<char>,
    ipath: Seq<char>,
    artists: Seq<Artist>,
    albums: Seq<Album>,
    track_files: Seq<TrackFile>,
    manual: Seq<ManualImportItem>,
    evidence: Map<Seq<char>, Evidence>,
    present: bool,
)
    ensures
        ({
            let r = spec_classify_located(
                cfg,
                now_ms,
                file,
                qpath,
                ipath,
                artists,
                albums,
                track_files,
                manual,
                evidence,
                present,
            );
            &&& file.mtime_ms as int > now_ms as int - cfg.stale_hours as int * 3_600_000 ==> r is Some
                && r.unwrap().category == Category::ReportOnly && r.unwrap().reason == "file_newer_than_stale_hours"@
                && r.unwrap().quarantine_path == qpath
            &&& (r is Some && r.unwrap().category == Category::ReportOnly) ==> file.mtime_ms as int > now_ms as int
                - cfg.stale_hours as int * 3_600_000
        }),
{
}

/// Law: a file is classified as corrupt or likely lossy only when it is past the stale
/// window, the validator's result for its path matches its size and exact nanosecond
/// modification time, the result justifies that category, and the file is a regular
/// file.
pub proof fn integrity_entries_need_matching_evidence(
    cfg: DiskConfig,
    now_ms: i64,
    file: FsFile,
    artists: Seq<Artist>,
    albums: Seq<Album>,
    track_files: Seq<TrackFile>,
    manual: Seq<ManualImportItem>,
    evidence: Map<Seq<char>, Evidence>,
    present: bool,
)
    ensures
        ({
            let r = spec_classify_file(cfg, now_ms, file, artists, albums, track_files, manual, evidence, present);
            r matches Ok(Some(rec)) ==> (rec.category == Category::AudioCorrupt || rec.category
                == Category::AudioLikelyLossy ==> {
                let rel = stripped_path(file.source_path@, cfg.music_root@).unwrap();
                let ipath = joined_path(cfg.integrity_music_root@, rel);
                &&& file.mtime_ms as int <= stale_before(now_ms, cfg.stale_hours)
                &&& present
                &&& evidence.contains_key(ipath)
                &&& evidence[ipath].spec_matches_fingerprint(file.size, file.mtime_ns)
                &&& evidence[ipath].spec_category() is Some
                &&& rec.category == evidence_category(evidence[ipath].spec_category().unwrap())
            })
        }),
{
}

/// The artist folder of an artist id, looked up.
fn artist_path_of(artists: &[Artist], artist_map: &HashMapWithView<i64, usize>, artist_id: Option<i64>) -> (r: Option<String>)
    requires
        artist_map@ == artist_index(artists@),
    ensures
        opt_text(r) == spec_artist_path(artists@, artist_id),
{
    // Reading the length brings in that it fits in `usize`, which the index lemma needs.
    let _artist_count = artists.len();
    proof {
        lemma_id_index_in_range(artists@, |a: Artist| a.id);
    }
    match artist_id {
        Some(id) => match artist_map.get(&id) {
            Some(i) => copy_opt_string(&artists[*i].path),
            None => None,
        },
        None => None,
    }
}

/// Classifies one file, given whether it is a regular file on disk: its paths relative
/// to the music root, then its entry.
fn classify_file(
    cfg: &DiskConfig,
    now_ms: i64,
    file: &FsFile,
    present: bool,
    artists: &[Artist],
    albums: &[Album],
    track_files: &[TrackFile],
    manual: &[ManualImportItem],
    evidence: &EvidenceIndex,
    artist_map: &HashMapWithView<i64, usize>,
    album_map: &HashMapWithView<i64, usize>,
    active_map: &StringHashMap<usize>,
    manual_map: &StringHashMap<usize>,
) -> (r: Result<Option<Record>, DiskError>)
    requires
        artist_map@ == artist_index(artists@),
        album_map@ == album_index(albums@),
        active_map@ == track_file_index(track_files@),
        manual_map@ == manual_index(manual@),
    ensures
        spec_classify_file(*cfg, now_ms, *file, artists@, albums@, track_files@, manual@, evidence@, present) == match r {
            Ok(Some(rec)) => Ok(Some(rec@)),
            Ok(None) => Ok(None),
            Err(DiskError::OutsideMusicRoot(p)) => Err(p@),
        },
{
    let rel = match path_strip_prefix(file.source_path.as_str(), cfg.music_root.as_str()) {
        Some(rel) => rel,
        None => return Err(DiskError::OutsideMusicRoot(file.source_path.clone())),
    };
    let qpath = path_join(cfg.quarantine_root.as_str(), rel.as_str());
    let ipath = path_join(cfg.integrity_music_root.as_str(), rel.as_str());
    Ok(
        classify_located_indexed(
            cfg,
            now_ms,
            file,
            present,
            qpath,
            ipath.as_str(),
            artists,
            albums,
            track_files,
            manual,
            evidence,
            artist_map,
            album_map,
            active_map,
            manual_map,
        ),
    )
}

/// Classifies one file whose quarantine path and validator path are known, given
/// whether it is a regular file on disk.
pub fn classify_located(
    cfg: &DiskConfig,
    now_ms: i64,
    file: &FsFile,
    present: bool,
    quarantine_path: String,
    integrity_path: &str,
    artists: &[Artist],
    albums: &[Album],
    track_files: &[TrackFile],
    manual_import: &[ManualImportItem],
    evidence: &EvidenceIndex,
) -> (r: Option<Record>)
    ensures
        spec_classify_located(
            *cfg,
            now_ms,
            *file,
            quarantine_path@,
            integrity_path@,
            artists@,
            albums@,
            track_files@,
            manual_import@,
            evidence@,
            present,
        ) == match r {
            Some(rec) => Some(rec@),
            None => None,
        },
{
    let artist_map = index_artists(artists);
    let album_map = index_albums(albums);
    let active_map = index_track_files(track_files);
    let manual_map = index_manual(manual_import);
    classify_located_indexed(
        cfg,
        now_ms,
        file,
        present,
        quarantine_path,
        integrity_path,
        artists,
        albums,
        track_files,
        manual_import,
        evidence,
        &artist_map,
        &album_map,
        &active_map,
        &manual_map,
    )
}

/// Classifies one file once its paths are known, with the lookups already built.
fn classify_located_indexed(
    cfg: &DiskConfig,
    now_ms: i64,
    file: &FsFile,
    present: bool,
    qpath: String,
    ipath: &str,
    artists: &[Artist],
    albums: &[Album],
    track_files: &[TrackFile],
    manual: &[ManualImportItem],
    evidence: &EvidenceIndex,
    artist_map: &HashMapWithView<i64, usize>,
    album_map: &HashMapWithView<i64, usize>,
    active_map: &StringHashMap<usize>,
    manual_map: &StringHashMap<usize>,
) -> (r: Option<Record>)
    requires
        artist_map@ == artist_index(artists@),
        album_map@ == album_index(albums@),
        active_map@ == track_file_index(track_files@),
        manual_map@ == manual_index(manual@),
    ensures
        spec_classify_located(*cfg, now_ms, *file, qpath@, ipath@, artists@, albums@, track_files@, manual@, evidence@, present)
            == match r {
            Some(rec) => Some(rec@),
            None => None,
        },
{
    // Reading the lengths brings in that they fit in `usize`, which the index lemmas need.
    let _album_count = albums.len();
    let _track_file_count = track_files.len();
    proof {
        lemma_id_index_in_range(albums@, |a: Album| a.id);
        lemma_text_index_in_range(track_files@, |t: TrackFile| track_file_key(t));
    }
    let stale: i128 = (now_ms as i128) - (cfg.stale_hours as i128) * 3_600_000;
    let key = file.lidarr_path.as_str();
    if (file.mtime_ms as i128) > stale {
        let rec = Record {
            mtime_ns: file.mtime_ns,
            quarantined_at: None,
            category: Category::ReportOnly,
            reason: "file_newer_than_stale_hours".to_owned(),
            source_path: file.source_path.clone(),
            lidarr_path: file.lidarr_path.clone(),
            quarantine_path: qpath,
            size: file.size,
            artist_id: None,
            album_id: None,
            track_file_id: None,
            action: Action::ReportOnly,
            selected_for_move: false,
            active_known: false,
            artist_path: None,
        };
        return Some(rec);
    }
    let active: Option<&TrackFile> = match active_map.get(key) {
        Some(i) => Some(&track_files[*i]),
        None => None,
    };
    let ghost active_spec = lookup_track_file(track_files@, file.lidarr_path@);
    assert(match active {
        Some(t) => active_spec == Some(*t),
        None => active_spec is None,
    });
    let active_artist: Option<i64> = match active {
        Some(t) => t.artist_id,
        None => None,
    };
    let active_album: Option<i64> = match active {
        Some(t) => t.album_id,
        None => None,
    };
    let active_id: Option<i64> = match active {
        Some(t) => t.id,
        None => None,
    };
    let mut qualified: Option<(Category, &Evidence)> = None;
    match evidence.get(ipath) {
        Some(item) => {
            if item.matches(present, file.size, file.mtime_ns) {
                match item.category_kind() {
                    Some(EvidenceCategory::Corrupt) => {
                        qualified = Some((Category::AudioCorrupt, item));
                    },
                    Some(EvidenceCategory::LikelyLossy) => {
                        qualified = Some((Category::AudioLikelyLossy, item));
                    },
                    None => {},
                }
            }
        },
        None => {},
    }
    assert(match qualified {
        Some((c, item)) => integrity_category(evidence@, ipath@, *file, present) == Some(c) && *item == evidence@[ipath@],
        None => integrity_category(evidence@, ipath@, *file, present) is None,
    });
    if let Some((category, item)) = qualified {
        let mut reason: Vec<char> = chars_of(item.message.as_str());
        push_str(&mut reason, "; ");
        push_str(&mut reason, item.authenticity_message.as_str());
        let rec = Record {
            mtime_ns: file.mtime_ns,
            quarantined_at: None,
            category,
            reason: string_of(reason.as_slice()),
            source_path: file.source_path.clone(),
            lidarr_path: file.lidarr_path.clone(),
            quarantine_path: qpath,
            size: file.size,
            artist_id: active_artist,
            album_id: active_album,
            track_file_id: active_id,
            action: Action::ReportOnly,
            selected_for_move: false,
            active_known: active.is_some(),
            artist_path: artist_path_of(artists, artist_map, active_artist),
        };
        return Some(rec);
    }
    if active.is_some() {
        let unmonitored = match active_album {
            Some(id) => match album_map.get(&id) {
                Some(i) => albums[*i].monitored == Some(false),
                None => false,
            },
            None => false,
        };
        if unmonitored {
            let rec = Record {
                mtime_ns: file.mtime_ns,
                quarantined_at: None,
                category: Category::KnownUnmonitoredAlbum,
                reason: "active_lidarr_file_on_unmonitored_album".to_owned(),
                source_path: file.source_path.clone(),
                lidarr_path: file.lidarr_path.clone(),
                quarantine_path: qpath,
                size: file.size,
                artist_id: active_artist,
                album_id: active_album,
                track_file_id: active_id,
                action: Action::ReportOnly,
                selected_for_move: false,
                active_known: true,
                artist_path: artist_path_of(artists, artist_map, active_artist),
            };
            return Some(rec);
        }
        return None;
    }
    let listed = manual_map.contains_key(key);
    let (category, reason) = if listed {
        (Category::DuplicateLowerQuality, "manual_import_mapping_exists_but_file_is_not_active")
    } else {
        (Category::UnknownToLidarr, "not_active_and_not_seen_by_manual_import")
    };
    let rec = Record {
        mtime_ns: file.mtime_ns,
        quarantined_at: None,
        category,
        reason: reason.to_owned(),
        source_path: file.source_path.clone(),
        lidarr_path: file.lidarr_path.clone(),
        quarantine_path: qpath,
        size: file.size,
        artist_id: None,
        album_id: None,
        track_file_id: None,
        action: Action::ReportOnly,
        selected_for_move: false,
        active_known: false,
        artist_path: None,
    };
    Some(rec)
}

/// The classification result as plain values.
pub open spec fn classify_view(r: Result<Vec<Record>, DiskError>) -> Result<Seq<RecordView>, Seq<char>> {
    match r {
        Ok(v) => Ok(records_view(v@)),
        Err(DiskError::OutsideMusicRoot(p)) => Err(p@),
    }
}

/// Classifies the scanned files at `now_ms` (milliseconds since the epoch) against
/// Lidarr's artists, albums, track files and manual-import listing and the integrity
/// evidence, with `present[i]` telling whether `files[i]` is a regular file on disk.
pub fn classify_with(
    cfg: &DiskConfig,
    now_ms: i64,
    files: &[FsFile],
    artists: &[Artist],
    albums: &[Album],
    track_files: &[TrackFile],
    manual_import: &[ManualImportItem],
    evidence: &EvidenceIndex,
    present: &[bool],
) -> (r: Result<Vec<Record>, DiskError>)
    requires
        present@.len() == files@.len(),
    ensures
        spec_classify_all(*cfg, now_ms, files@, artists@, albums@, track_files@, manual_import@, evidence@, present@)
            == classify_view(r),
{
    let artist_map = index_artists(artists);
    let album_map = index_albums(albums);
    let active_map = index_track_files(track_files);
    let manual_map = index_manual(manual_import);
    let mut records: Vec<Record> = Vec::new();
    let mut i: usize = 0;
    assert(files@.take(0) =~= Seq::<FsFile>::empty());
    assert(records_view(records@) =~= Seq::<RecordView>::empty());
    while i < files.len()
        invariant
            i <= files@.len(),
            present@.len() == files@.len(),
            artist_map@ == artist_index(artists@),
            album_map@ == album_index(albums@),
            active_map@ == track_file_index(track_files@),
            manual_map@ == manual_index(manual_import@),
            spec_classify_all(
                *cfg,
                now_ms,
                files@.take(i as int),
                artists@,
                albums@,
                track_files@,
                manual_import@,
                evidence@,
                present@.take(i as int),
            ) == Ok::<Seq<RecordView>, Seq<char>>(records_view(records@)),
        decreases files@.len() - i,
    {
        let out = classify_file(
            cfg,
            now_ms,
            &files[i],
            present[i],
            artists,
            albums,
            track_files,
            manual_import,
            evidence,
            &artist_map,
            &album_map,
            &active_map,
            &manual_map,
        );
        proof {
            assert(files@.take(i + 1 as int).drop_last() =~= files@.take(i as int));
            assert(files@.take(i + 1 as int).last() == files@[i as int]);
            assert(present@.take(i + 1 as int).drop_last() =~= present@.take(i as int));
            assert(present@.take(i + 1 as int).last() == present@[i as int]);
        }
        match out {
            Err(e) => {
                proof {
                    lemma_classify_all_prefix_error(
                        *cfg,
                        now_ms,
                        files@,
                        artists@,
                        albums@,
                        track_files@,
                        manual_import@,
                        evidence@,
                        present@,
                        (i + 1) as int,
                    );
                }
                return Err(e);
            },
            Ok(Some(rec)) => {
                let ghost before = records@;
                records.push(rec);
                assert(records_view(records@) =~= records_view(before).push(rec@));
            },
            Ok(None) => {},
        }
        i = i + 1;
    }
    assert(files@.take(files@.len() as int) =~= files@);
    assert(present@.take(present@.len() as int) =~= present@);
    Ok(records)
}

/// Classifies the scanned files at `now_ms`, asking the disk whether a file is a
/// regular file (only when there is evidence at all, since only evidence needs it).
pub fn classify_at(
    cfg: &DiskConfig,
    now_ms: i64,
    files: &[FsFile],
    artists: &[Artist],
    albums: &[Album],
    track_files: &[TrackFile],
    manual_import: &[ManualImportItem],
    evidence: &EvidenceIndex,
) -> (r: Result<Vec<Record>, DiskError>)
    ensures
        exists|present: Seq<bool>|
            present.len() == files@.len() && #[trigger] spec_classify_all(
                *cfg,
                now_ms,
                files@,
                artists@,
                albums@,
                track_files@,
                manual_import@,
                evidence@,
                present,
            ) == classify_view(r),
{
    let any_evidence = evidence.len() > 0;
    let mut present: Vec<bool> = Vec::new();
    let mut i: usize = 0;
    while i < files.len()
        invariant
            i <= files@.len(),
            present@.len() == i,
        decreases files@.len() - i,
    {
        present.push(any_evidence && path_is_file(files[i].source_path.as_str()));
        i = i + 1;
    }
    classify_with(cfg, now_ms, files, artists, albums, track_files, manual_import, evidence, present.as_slice())
}

/// Once the first `n` files fail, all files fail with the same error.
proof fn lemma_classify_all_prefix_error(
    cfg: DiskConfig,
    now_ms: i64,
    files: Seq<FsFile>,
    artists: Seq<Artist>,
    albums: Seq<Album>,
    track_files: Seq<TrackFile>,
    manual: Seq<ManualImportItem>,
    evidence: Map<Seq<char>, Evidence>,
    present: Seq<bool>,
    n: int,
)
    requires
        0 <= n <= files.len(),
        present.len() == files.len(),
        spec_classify_all(cfg, now_ms, files.take(n), artists, albums, track_files, manual, evidence, present.take(n)) is Err,
    ensures
        spec_classify_all(cfg, now_ms, files, artists, albums, track_files, manual, evidence, present)
            == spec_classify_all(cfg, now_ms, files.take(n), artists, albums, track_files, manual, evidence, present.take(n)),
    decreases files.len() - n,
{
    if n < files.len() {
        let m = files.len() - 1;
        assert(files.drop_last().take(n) =~= files.take(n));
        assert(present.drop_last().take(n) =~= present.take(n));
        lemma_classify_all_prefix_error(cfg, now_ms, files.drop_last(), artists, albums, track_files, manual, evidence, present.drop_last(), n);
    } else {
        assert(files.take(n) =~= files);
        assert(present.take(n) =~= present);
    }
}

/// Classifies the scanned files now (the system clock's time in milliseconds).
pub fn classify(
    cfg: &DiskConfig,
    files: &[FsFile],
    artists: &[Artist],
    albums: &[Album],
    track_files: &[TrackFile],
    manual_import: &[ManualImportItem],
    evidence: &EvidenceIndex,
) -> (r: Result<Vec<Record>, DiskError>)
    ensures
        exists|now_ms: i64, present: Seq<bool>|
            present.len() == files@.len() && #[trigger] spec_classify_all(
                *cfg,
                now_ms,
                files@,
                artists@,
                albums@,
                track_files@,
                manual_import@,
                evidence@,
                present,
            ) == classify_view(r),
{
    let now_ms = utc_now_millis();
    classify_at(cfg, now_ms, files, artists, albums, track_files, manual_import, evidence)
}


// ------------------------------------------------------------ run limits

/// `u64::saturating_add`.
pub open spec fn sat_add(a: u64, b: u64) -> u64 {
    if a as int + b as int > u64::MAX as int {
        u64::MAX
    } else {
        (a + b) as u64
    }
}

/// A record with a new action, selection flag and (optionally) quarantine path.
pub open spec fn with_action(r: RecordView, action: Action, selected: bool, quarantine_path: Seq<char>) -> RecordView {
    RecordView { action, selected_for_move: selected, quarantine_path, ..r }
}

/// Whether a record takes part in the limits: a movable category, and for files Lidarr
/// does not track only when cleaning untracked files is enabled.
pub open spec fn spec_considered(r: RecordView, clean_untracked: bool) -> bool {
    r.category.spec_movable() && (clean_untracked || !r.category.spec_untracked())
}

/// The limit pass over `rs`: the updated records, the positions chosen for a move,
/// the file and byte counts, and the source path that stopped the pass (a considered
/// file outside the music root), if any. Considered records are taken in order while
/// both limits allow them (bytes add up saturating); the others within the limits are
/// marked `skipped_limit`. A taken record gets its path in the run's quarantine
/// directory and `dry_run`, or `quarantined` and the selection flag in apply mode.
pub open spec fn spec_limits(cfg: DiskConfig, run_id: Seq<char>, rs: Seq<RecordView>) -> (
    Seq<RecordView>,
    Seq<usize>,
    nat,
    u64,
    Option<Seq<char>>,
)
    decreases rs.len(),
{
    if rs.len() == 0 {
        (Seq::empty(), Seq::empty(), 0, 0, None)
    } else {
        let (out, sel, count, bytes, err) = spec_limits(cfg, run_id, rs.drop_last());
        let r = rs.last();
        let idx = (rs.len() - 1) as usize;
        if err is Some {
            (out.push(r), sel, count, bytes, err)
        } else if !spec_considered(r, cfg.clean_untracked) {
            (out.push(r), sel, count, bytes, err)
        } else if count >= cfg.max_files || sat_add(bytes, r.size) > cfg.max_bytes {
            (out.push(with_action(r, Action::SkippedLimit, r.selected_for_move, r.quarantine_path)), sel, count, bytes, err)
        } else {
            match spec_destination(cfg.music_root@, joined_path(cfg.quarantine_root@, run_id), r.source_path) {
                None => (out.push(r), sel, count + 1, sat_add(bytes, r.size), Some(r.source_path)),
                Some(q) => (
                    out.push(
                        with_action(r, if cfg.dry_run { Action::DryRun } else { Action::Quarantined }, !cfg.dry_run, q),
                    ),
                    if cfg.dry_run { sel } else { sel.push(idx) },
                    count + 1,
                    sat_add(bytes, r.size),
                    None,
                ),
            }
        }
    }
}

/// A copy of a record with a new action, selection flag and quarantine path.
fn rebuilt(r: &Record, action: Action, selected: bool, quarantine_path: String) -> (n: Record)
    ensures
        n@ == with_action(r@, action, selected, quarantine_path@),
{
    Record {
        mtime_ns: r.mtime_ns,
        quarantined_at: copy_opt_string(&r.quarantined_at),
        category: r.category,
        reason: r.reason.clone(),
        source_path: r.source_path.clone(),
        lidarr_path: r.lidarr_path.clone(),
        quarantine_path,
        size: r.size,
        artist_id: r.artist_id,
        album_id: r.album_id,
        track_file_id: r.track_file_id,
        action,
        selected_for_move: selected,
        active_known: r.active_known,
        artist_path: copy_opt_string(&r.artist_path),
    }
}

/// Applies the run limits to the manifest (in order) and returns the positions of the
/// records to move, which are none in dry-run. A considered file outside the music
/// root stops the pass with an error; the records before it keep their updates.
pub fn apply_limits(cfg: &DiskConfig, run_id: &str, records: &mut Vec<Record>) -> (r: Result<Vec<usize>, DiskError>)
    ensures
        ({
            let (out, sel, _count, _bytes, err) = spec_limits(*cfg, run_id@, records_view(old(records)@));
            &&& records_view(final(records)@) == out
            &&& match r {
                Ok(v) => err is None && v@ == sel,
                Err(DiskError::OutsideMusicRoot(p)) => err == Some(p@),
            }
        }),
{
    let ghost input = records_view(records@);
    let run_dir = path_join(cfg.quarantine_root.as_str(), run_id);
    let mut count: usize = 0;
    let mut bytes: u64 = 0;
    let mut selected: Vec<usize> = Vec::new();
    let n = records.len();
    let mut i: usize = 0;
    while i < n
        invariant
            n == records@.len(),
            input == records_view(old(records)@),
            input.len() == n,
            i <= n,
            run_dir@ == joined_path(cfg.quarantine_root@, run_id@),
            records_view(records@).skip(i as int) == input.skip(i as int),
            ({
                let (out, sel, c, b, err) = spec_limits(*cfg, run_id@, input.take(i as int));
                &&& records_view(records@).take(i as int) == out
                &&& selected@ == sel
                &&& c == count as nat
                &&& b == bytes
                &&& err is None
            }),
            count <= i,
        decreases n - i,
    {
        let ghost before = records_view(records@);
        proof {
            assert(input.take(i + 1 as int).drop_last() =~= input.take(i as int));
            assert(input.take(i + 1 as int).last() == input[i as int]);
            assert(before[i as int] == input[i as int]) by {
                assert(before.skip(i as int)[0] == input.skip(i as int)[0]);
            }
        }
        let movable = match records[i].category {
            Category::ReportOnly => false,
            _ => true,
        };
        let untracked = match records[i].category {
            Category::DuplicateLowerQuality | Category::UnknownToLidarr => true,
            _ => false,
        };
        if movable && (cfg.clean_untracked || !untracked) {
            let size = records[i].size;
            let total: u64 = if bytes > u64::MAX - size { u64::MAX } else { bytes + size };
            if count >= cfg.max_files || total > cfg.max_bytes {
                let q = records[i].quarantine_path.clone();
                let sel_flag = records[i].selected_for_move;
                let updated = rebuilt(&records[i], Action::SkippedLimit, sel_flag, q);
                records.set(i, updated);
            } else {
                count = count + 1;
                bytes = total;
                match destination(cfg.music_root.as_str(), run_dir.as_str(), records[i].source_path.as_str()) {
                    Err(e) => {
                        proof {
                            let pre = spec_limits(*cfg, run_id@, input.take(i as int));
                            let full = spec_limits(*cfg, run_id@, input.take(i + 1 as int));
                            assert(full.4 == Some(input[i as int].source_path));
                            assert(full.0 == pre.0.push(input[i as int]));
                            lemma_limits_error_sticks(*cfg, run_id@, input, (i + 1) as int);
                            assert(input.skip(i as int) =~= seq![input[i as int]] + input.skip(i + 1 as int));
                            assert(before =~= before.take(i as int) + before.skip(i as int));
                            assert(records_view(records@) =~= full.0 + input.skip(i + 1 as int));
                            assert(before[i as int] == records@[i as int]@);
                            assert(spec_limits(*cfg, run_id@, input).4 == Some(input[i as int].source_path));
                            assert(spec_limits(*cfg, run_id@, input).0 == full.0 + input.skip(i + 1 as int));
                        }
                        return Err(e);
                    },
                    Ok(q) => {
                        let action = if cfg.dry_run { Action::DryRun } else { Action::Quarantined };
                        let updated = rebuilt(&records[i], action, !cfg.dry_run, q);
                        records.set(i, updated);
                        if !cfg.dry_run {
                            selected.push(i);
                        }
                    },
                }
            }
        }
        proof {
            let after = records_view(records@);
            assert(after.take(i + 1 as int) =~= before.take(i as int).push(after[i as int]));
            assert(after.skip(i + 1 as int) =~= before.skip(i + 1 as int));
            assert(before.skip(i + 1 as int) =~= input.skip(i + 1 as int)) by {
                assert forall|k: int| 0 <= k < before.skip(i + 1 as int).len() implies #[trigger] before.skip(i + 1 as int)[k] == input.skip(i + 1 as int)[k] by {
                    assert(before.skip(i as int)[k + 1] == input.skip(i as int)[k + 1]);
                }
            }
        }
        i = i + 1;
    }
    proof {
        assert(input.take(n as int) =~= input);
        assert(records_view(records@).take(n as int) =~= records_view(records@));
    }
    Ok(selected)
}

/// After the pass stops on an error, later records pass through unchanged.
proof fn lemma_limits_error_sticks(cfg: DiskConfig, run_id: Seq<char>, rs: Seq<RecordView>, n: int)
    requires
        0 <= n <= rs.len(),
        spec_limits(cfg, run_id, rs.take(n)).4 is Some,
    ensures
        spec_limits(cfg, run_id, rs).4 == spec_limits(cfg, run_id, rs.take(n)).4,
        spec_limits(cfg, run_id, rs).0 == spec_limits(cfg, run_id, rs.take(n)).0 + rs.skip(n),
    decreases rs.len() - n,
{
    if n < rs.len() {
        assert(rs.drop_last().take(n) =~= rs.take(n));
        lemma_limits_error_sticks(cfg, run_id, rs.drop_last(), n);
        assert(rs.drop_last().skip(n).push(rs.last()) =~= rs.skip(n));
    } else {
        assert(rs.take(n) =~= rs);
        assert(rs.skip(n) =~= Seq::<RecordView>::empty());
    }
}

/// Law: one run takes at most `max_files` files and at most `max_bytes` bytes, and in
/// dry-run it selects nothing for a move.
pub proof fn limits_are_respected(cfg: DiskConfig, run_id: Seq<char>, rs: Seq<RecordView>)
    ensures
        spec_limits(cfg, run_id, rs).2 <= cfg.max_files,
        spec_limits(cfg, run_id, rs).3 <= cfg.max_bytes || spec_limits(cfg, run_id, rs).4 is Some,
        cfg.dry_run ==> spec_limits(cfg, run_id, rs).1.len() == 0,
        spec_limits(cfg, run_id, rs).0.len() == rs.len(),
    decreases rs.len(),
{
    if rs.len() > 0 {
        limits_are_respected(cfg, run_id, rs.drop_last());
    }
}

/// Law: the limits never move a recent (report-only) file, nor an untracked file
/// unless untracked cleaning is on; such records pass through unchanged, and every
/// record keeps its file, category and reason.
pub proof fn limits_spare_unconsidered_files(cfg: DiskConfig, run_id: Seq<char>, rs: Seq<RecordView>)
    requires
        rs.len() <= usize::MAX,
    ensures
        forall|i: int|
            0 <= i < rs.len() && !spec_considered(rs[i], cfg.clean_untracked) ==> #[trigger] spec_limits(cfg, run_id, rs).0[i]
                == rs[i],
        forall|i: int|
            0 <= i < rs.len() ==> (#[trigger] spec_limits(cfg, run_id, rs).0[i]).source_path == rs[i].source_path
                && spec_limits(cfg, run_id, rs).0[i].category == rs[i].category && spec_limits(cfg, run_id, rs).0[i].reason
                == rs[i].reason,
        forall|k: int|
            0 <= k < spec_limits(cfg, run_id, rs).1.len() ==> spec_considered(
                rs[#[trigger] spec_limits(cfg, run_id, rs).1[k] as int],
                cfg.clean_untracked,
            ) && spec_limits(cfg, run_id, rs).1[k] < rs.len(),
    decreases rs.len(),
{
    if rs.len() > 0 {
        let p = rs.drop_last();
        limits_spare_unconsidered_files(cfg, run_id, p);
        let (out, sel, _c, _b, _e) = spec_limits(cfg, run_id, p);
        assert forall|i: int| 0 <= i < p.len() implies #[trigger] rs[i] == p[i] by {}
        assert(spec_limits(cfg, run_id, rs).0.len() == rs.len()) by {
            limits_are_respected(cfg, run_id, rs);
        }
        assert forall|i: int| 0 <= i < p.len() implies spec_limits(cfg, run_id, rs).0[i] == out[i] by {
            limits_are_respected(cfg, run_id, p);
        }
    }
}


// ------------------------------------------------------------ moves

/// Marks the records chosen for a move as `pending` (before the move plan is saved).
pub fn mark_pending(records: &mut Vec<Record>, selected: &[usize])
    requires
        forall|k: int| 0 <= k < selected@.len() ==> #[trigger] selected@[k] < old(records)@.len(),
    ensures
        records_view(final(records)@).len() == old(records)@.len(),
        forall|i: int|
            0 <= i < old(records)@.len() ==> (#[trigger] records_view(final(records)@)[i]) == if selected@.contains(
                i as usize,
            ) {
                RecordView { action: Action::Pending, ..old(records)@[i]@ }
            } else {
                old(records)@[i]@
            },
{
    // Reading the length brings in that it fits in `usize` (a loop invariant).
    let _record_count = records.len();
    let mut k: usize = 0;
    while k < selected.len()
        invariant
            k <= selected@.len(),
            old(records)@.len() <= usize::MAX,
            forall|m: int| 0 <= m < selected@.len() ==> #[trigger] selected@[m] < old(records)@.len(),
            records@.len() == old(records)@.len(),
            forall|i: int|
                0 <= i < old(records)@.len() ==> (#[trigger] records@[i]@) == if selected@.take(k as int).contains(
                    i as usize,
                ) {
                    RecordView { action: Action::Pending, ..old(records)@[i]@ }
                } else {
                    old(records)@[i]@
                },
        decreases selected@.len() - k,
    {
        let idx = selected[k];
        let q = records[idx].quarantine_path.clone();
        let sel = records[idx].selected_for_move;
        let updated = rebuilt(&records[idx], Action::Pending, sel, q);
        let ghost prev = records@;
        records.set(idx, updated);
        proof {
            assert(records@ == prev.update(idx as int, updated));
            assert forall|i: int| 0 <= i < old(records)@.len() implies (#[trigger] records@[i]@) == if selected@.take(
                k + 1 as int,
            ).contains(i as usize) {
                RecordView { action: Action::Pending, ..old(records)@[i]@ }
            } else {
                old(records)@[i]@
            } by {
                let t = selected@.take(k as int);
                let t1 = selected@.take(k + 1 as int);
                assert(t1 =~= t.push(idx));
                lemma_push_contains(t, idx, i as usize);
                if i == idx as int {
                    assert(records@[i]@ == with_action(prev[i]@, Action::Pending, sel, q@));
                    assert(sel == prev[i]@.selected_for_move);
                    assert(q@ == prev[i]@.quarantine_path);
                    assert(t1.contains(i as usize));
                    assert(prev[i]@ == old(records)@[i]@ || prev[i]@ == RecordView { action: Action::Pending, ..old(records)@[i]@ });
                    assert(records@[i]@ == RecordView { action: Action::Pending, ..old(records)@[i]@ });
                } else {
                    assert(records@[i] == prev[i]);
                    assert((i as usize) != idx);
                    assert(t1.contains(i as usize) == t.contains(i as usize));
                }
            }
        }
        k = k + 1;
    }
    assert(selected@.take(selected@.len() as int) =~= selected@);
    assert forall|i: int| 0 <= i < old(records)@.len() implies (#[trigger] records_view(records@)[i]) == records@[i]@ by {}
}

/// Membership after a push.
proof fn lemma_push_contains<T>(s: Seq<T>, x: T, y: T)
    ensures
        s.push(x).contains(y) <==> (s.contains(y) || y == x),
{
    if s.contains(y) {
        let i = choose|i: int| 0 <= i < s.len() && s[i] == y;
        assert(s.push(x)[i] == y);
    }
    if y == x {
        assert(s.push(x)[s.len() as int] == y);
    }
    if s.push(x).contains(y) {
        let i = choose|i: int| 0 <= i < s.len() + 1 && s.push(x)[i] == y;
        if i < s.len() {
            assert(s[i] == y);
        }
    }
}

/// Whether a file is as classified: a regular file with the recorded size and
/// nanosecond modification time.
pub open spec fn spec_file_unchanged(r: RecordView, is_file: bool, len: u64, mtime_ns: u128) -> bool {
    is_file && len == r.size && mtime_ns == r.mtime_ns
}

/// Whether the file on disk still matches the record.
pub fn file_unchanged(r: &Record, is_file: bool, len: u64, mtime_ns: u128) -> (b: bool)
    ensures
        b == spec_file_unchanged(r@, is_file, len, mtime_ns),
{
    is_file && len == r.size && mtime_ns == r.mtime_ns
}

/// Records a move outcome: on success the time of the move and `quarantined`; on
/// failure `move_failed` with the failure appended to the reason.
pub fn finish_move(r: &mut Record, outcome: Result<String, String>)
    ensures
        match outcome {
            Ok(at) => final(r)@ == RecordView { action: Action::Quarantined, quarantined_at: Some(at@), ..old(r)@ },
            Err(msg) => final(r)@ == RecordView {
                action: Action::MoveFailed,
                reason: old(r)@.reason + "; "@ + msg@,
                ..old(r)@
            },
        },
{
    match outcome {
        Ok(at) => {
            r.action = Action::Quarantined;
            r.quarantined_at = Some(at);
        },
        Err(msg) => {
            let mut v = chars_of(r.reason.as_str());
            push_str(&mut v, "; ");
            push_str(&mut v, msg.as_str());
            r.action = Action::MoveFailed;
            r.reason = string_of(v.as_slice());
        },
    }
}

/// Whether some record has the action.
pub open spec fn spec_any_action(rs: Seq<RecordView>, a: Action) -> bool {
    exists|i: int| 0 <= i < rs.len() && (#[trigger] rs[i]).action == a
}

/// Whether some record has the action.
pub fn any_action(records: &[Record], a: Action) -> (b: bool)
    ensures
        b == spec_any_action(records_view(records@), a),
{
    let ghost rv = records_view(records@);
    let mut i: usize = 0;
    while i < records.len()
        invariant
            i <= records@.len(),
            rv == records_view(records@),
            forall|k: int| 0 <= k < i ==> (#[trigger] rv[k]).action != a,
        decreases records@.len() - i,
    {
        assert(rv[i as int] == records@[i as int]@);
        if records[i].action == a {
            return true;
        }
        i = i + 1;
    }
    false
}

/// Whether the run fails: some move failed, or the Lidarr rescan or the Navidrome
/// rescan answered with an error.
pub fn run_failed(records: &[Record], rescan_failed: bool, navidrome_failed: bool) -> (b: bool)
    ensures
        b == (spec_any_action(records_view(records@), Action::MoveFailed) || rescan_failed || navidrome_failed),
{
    any_action(records, Action::MoveFailed) || rescan_failed || navidrome_failed
}

/// Whether Lidarr must rescan: in apply mode, when some artist folder was affected.
pub fn rescan_required(dry_run: bool, affected: &[String]) -> (b: bool)
    ensures
        b == (!dry_run && affected@.len() > 0),
{
    !dry_run && affected.len() > 0
}

/// The artist folders of moved files that Lidarr tracks, in record order.
pub open spec fn moved_artist_paths(rs: Seq<RecordView>) -> Seq<Seq<char>>
    decreases rs.len(),
{
    if rs.len() == 0 {
        Seq::empty()
    } else {
        let r = rs.last();
        moved_artist_paths(rs.drop_last()) + if r.action == Action::Quarantined && r.active_known && r.artist_path is Some {
            seq![r.artist_path.unwrap()]
        } else {
            Seq::empty()
        }
    }
}

/// A sequence without repeats, keeping first occurrences.
pub open spec fn dedup(s: Seq<Seq<char>>) -> Seq<Seq<char>>
    decreases s.len(),
{
    if s.len() == 0 {
        s
    } else if dedup(s.drop_last()).contains(s.last()) {
        dedup(s.drop_last())
    } else {
        dedup(s.drop_last()).push(s.last())
    }
}

/// The artist folders Lidarr must rescan: each folder of a moved, Lidarr-tracked
/// file once.
pub fn affected_artist_paths(records: &[Record]) -> (r: Vec<String>)
    ensures
        r@.map_values(|p: String| p@) == dedup(moved_artist_paths(records_view(records@))),
{
    let ghost rv = records_view(records@);
    let mut out: Vec<String> = Vec::new();
    let mut i: usize = 0;
    while i < records.len()
        invariant
            i <= records@.len(),
            rv == records_view(records@),
            out@.map_values(|p: String| p@) == dedup(moved_artist_paths(rv.take(i as int))),
        decreases records@.len() - i,
    {
        let r = &records[i];
        assert(rv.take(i + 1 as int).drop_last() =~= rv.take(i as int));
        assert(rv.take(i + 1 as int).last() == r@);
        if r.action == Action::Quarantined && r.active_known && r.artist_path.is_some() {
            let p = r.artist_path.as_ref().unwrap();
            let ghost before = out@.map_values(|q: String| q@);
            let ghost prior = moved_artist_paths(rv.take(i as int));
            assert(moved_artist_paths(rv.take(i + 1 as int)) =~= prior.push(p@));
            assert(prior.push(p@).drop_last() =~= prior);
            assert(prior.push(p@).last() == p@);
            let mut j: usize = 0;
            let mut seen = false;
            while j < out.len()
                invariant
                    j <= out@.len(),
                    before == out@.map_values(|q: String| q@),
                    seen == exists|m: int| 0 <= m < j && #[trigger] before[m] == p@,
                decreases out@.len() - j,
            {
                assert(before[j as int] == out@[j as int]@);
                if crate::text::str_eq(out[j].as_str(), p.as_str()) {
                    seen = true;
                }
                j = j + 1;
            }
            if !seen {
                assert(!before.contains(p@));
                out.push(p.clone());
                assert(out@.map_values(|q: String| q@) =~= before.push(p@));
            } else {
                proof {
                    let m = choose|m: int| 0 <= m < before.len() && #[trigger] before[m] == p@;
                    assert(before.contains(p@));
                }
            }
        } else {
            assert(moved_artist_paths(rv.take(i + 1 as int)) =~= moved_artist_paths(rv.take(i as int)));
        }
        i = i + 1;
    }
    assert(rv.take(records@.len() as int) =~= rv);
    out
}

/// Law: each folder to rescan is listed once.
pub proof fn affected_paths_have_no_repeats(s: Seq<Seq<char>>)
    ensures
        dedup(s).no_duplicates(),
        forall|x: Seq<char>| dedup(s).contains(x) <==> s.contains(x),
    decreases s.len(),
{
    if s.len() > 0 {
        let p = s.drop_last();
        let x = s.last();
        let d = dedup(p);
        affected_paths_have_no_repeats(p);
        assert(s =~= p.push(x));
        assert forall|y: Seq<char>| dedup(s).contains(y) <==> s.contains(y) by {
            lemma_push_contains(p, x, y);
            lemma_push_contains(d, x, y);
        }
        if !d.contains(x) {
            assert forall|i: int, j: int| 0 <= i < d.push(x).len() && 0 <= j < d.push(x).len() && i != j implies d.push(x)[i]
                != d.push(x)[j] by {
                if i == d.len() {
                    assert(d.contains(d.push(x)[j]) || j == d.len());
                    if j < d.len() {
                        assert(d[j] == d.push(x)[j]);
                    }
                } else if j == d.len() {
                    assert(d[i] == d.push(x)[i]);
                }
            }
        }
    }
}

// ------------------------------------------------------------ counts

/// The number of records in a category.
pub open spec fn category_count(rs: Seq<RecordView>, c: Category) -> nat
    decreases rs.len(),
{
    if rs.len() == 0 {
        0
    } else {
        category_count(rs.drop_last(), c) + if rs.last().category == c { 1nat } else { 0nat }
    }
}

/// The number of records with an action.
pub open spec fn action_count(rs: Seq<RecordView>, a: Action) -> nat
    decreases rs.len(),
{
    if rs.len() == 0 {
        0
    } else {
        action_count(rs.drop_last(), a) + if rs.last().action == a { 1nat } else { 0nat }
    }
}

/// Every category, in report order.
pub open spec fn all_categories() -> Seq<Category> {
    seq![
        Category::ReportOnly,
        Category::AudioCorrupt,
        Category::AudioLikelyLossy,
        Category::KnownUnmonitoredAlbum,
        Category::DuplicateLowerQuality,
        Category::UnknownToLidarr,
    ]
}

/// Every action, in report order.
pub open spec fn all_actions() -> Seq<Action> {
    seq![
        Action::ReportOnly,
        Action::SkippedLimit,
        Action::DryRun,
        Action::Quarantined,
        Action::Pending,
        Action::MoveFailed,
    ]
}

/// The manifest tallies: for each category and each action that occurs, how many
/// records have it.
#[derive(Debug)]
pub struct Counts {
    pub by_category: Vec<(Category, usize)>,
    pub by_action: Vec<(Action, usize)>,
}

fn count_category(records: &[Record], c: Category) -> (n: usize)
    ensures
        n == category_count(records_view(records@), c),
{
    let ghost rv = records_view(records@);
    let mut n: usize = 0;
    let mut i: usize = 0;
    while i < records.len()
        invariant
            i <= records@.len(),
            rv == records_view(records@),
            n == category_count(rv.take(i as int), c),
            n <= i,
        decreases records@.len() - i,
    {
        assert(rv.take(i + 1 as int).drop_last() =~= rv.take(i as int));
        assert(rv.take(i + 1 as int).last() == records@[i as int]@);
        if records[i].category == c {
            n = n + 1;
        }
        i = i + 1;
    }
    assert(rv.take(records@.len() as int) =~= rv);
    n
}

fn count_action(records: &[Record], a: Action) -> (n: usize)
    ensures
        n == action_count(records_view(records@), a),
{
    let ghost rv = records_view(records@);
    let mut n: usize = 0;
    let mut i: usize = 0;
    while i < records.len()
        invariant
            i <= records@.len(),
            rv == records_view(records@),
            n == action_count(rv.take(i as int), a),
            n <= i,
        decreases records@.len() - i,
    {
        assert(rv.take(i + 1 as int).drop_last() =~= rv.take(i as int));
        assert(rv.take(i + 1 as int).last() == records@[i as int]@);
        if records[i].action == a {
            n = n + 1;
        }
        i = i + 1;
    }
    assert(rv.take(records@.len() as int) =~= rv);
    n
}

/// The categories that occur, with their counts, in report order.
pub open spec fn category_tally(rs: Seq<RecordView>, cs: Seq<Category>) -> Seq<(Category, nat)>
    decreases cs.len(),
{
    if cs.len() == 0 {
        Seq::empty()
    } else {
        category_tally(rs, cs.drop_last()) + if category_count(rs, cs.last()) > 0 {
            seq![(cs.last(), category_count(rs, cs.last()))]
        } else {
            Seq::empty()
        }
    }
}

/// The actions that occur, with their counts, in report order.
pub open spec fn action_tally(rs: Seq<RecordView>, acts: Seq<Action>) -> Seq<(Action, nat)>
    decreases acts.len(),
{
    if acts.len() == 0 {
        Seq::empty()
    } else {
        action_tally(rs, acts.drop_last()) + if action_count(rs, acts.last()) > 0 {
            seq![(acts.last(), action_count(rs, acts.last()))]
        } else {
            Seq::empty()
        }
    }
}

/// Tallies the manifest by category and by action.
pub fn count(records: &[Record]) -> (r: Counts)
    ensures
        r.by_category@.map_values(|e: (Category, usize)| (e.0, e.1 as nat)) == category_tally(
            records_view(records@),
            all_categories(),
        ),
        r.by_action@.map_values(|e: (Action, usize)| (e.0, e.1 as nat)) == action_tally(
            records_view(records@),
            all_actions(),
        ),
{
    let ghost rv = records_view(records@);
    let cats = [
        Category::ReportOnly,
        Category::AudioCorrupt,
        Category::AudioLikelyLossy,
        Category::KnownUnmonitoredAlbum,
        Category::DuplicateLowerQuality,
        Category::UnknownToLidarr,
    ];
    let acts = [
        Action::ReportOnly,
        Action::SkippedLimit,
        Action::DryRun,
        Action::Quarantined,
        Action::Pending,
        Action::MoveFailed,
    ];
    assert(cats@ =~= all_categories());
    assert(acts@ =~= all_actions());
    let mut by_category: Vec<(Category, usize)> = Vec::new();
    let mut i: usize = 0;
    while i < 6
        invariant
            i <= 6,
            cats@ == all_categories(),
            rv == records_view(records@),
            by_category@.map_values(|e: (Category, usize)| (e.0, e.1 as nat)) == category_tally(rv, all_categories().take(i as int)),
        decreases 6 - i,
    {
        assert(all_categories().take(i + 1 as int).drop_last() =~= all_categories().take(i as int));
        assert(all_categories().take(i + 1 as int).last() == cats@[i as int]);
        let n = count_category(records, cats[i]);
        if n > 0 {
            let ghost before = by_category@;
            by_category.push((cats[i], n));
            assert(by_category@.map_values(|e: (Category, usize)| (e.0, e.1 as nat)) =~= before.map_values(
                |e: (Category, usize)| (e.0, e.1 as nat),
            ).push((cats@[i as int], n as nat)));
        }
        i = i + 1;
    }
    assert(all_categories().take(6) =~= all_categories());
    let mut by_action: Vec<(Action, usize)> = Vec::new();
    let mut j: usize = 0;
    while j < 6
        invariant
            j <= 6,
            acts@ == all_actions(),
            rv == records_view(records@),
            by_action@.map_values(|e: (Action, usize)| (e.0, e.1 as nat)) == action_tally(rv, all_actions().take(j as int)),
        decreases 6 - j,
    {
        assert(all_actions().take(j + 1 as int).drop_last() =~= all_actions().take(j as int));
        assert(all_actions().take(j + 1 as int).last() == acts@[j as int]);
        let n = count_action(records, acts[j]);
        if n > 0 {
            let ghost before = by_action@;
            by_action.push((acts[j], n));
            assert(by_action@.map_values(|e: (Action, usize)| (e.0, e.1 as nat)) =~= before.map_values(
                |e: (Action, usize)| (e.0, e.1 as nat),
            ).push((acts@[j as int], n as nat)));
        }
        j = j + 1;
    }
    assert(all_actions().take(6) =~= all_actions());
    Counts { by_category, by_action }
}

/// Law: the category counts add up to the number of records.
pub proof fn category_counts_cover_all_records(rs: Seq<RecordView>)
    ensures
        category_count(rs, Category::ReportOnly) + category_count(rs, Category::AudioCorrupt) + category_count(
            rs,
            Category::AudioLikelyLossy,
        ) + category_count(rs, Category::KnownUnmonitoredAlbum) + category_count(rs, Category::DuplicateLowerQuality)
            + category_count(rs, Category::UnknownToLidarr) == rs.len(),
    decreases rs.len(),
{
    if rs.len() > 0 {
        category_counts_cover_all_records(rs.drop_last());
    }
}

/// Law: the action counts add up to the number of records.
pub proof fn action_counts_cover_all_records(rs: Seq<RecordView>)
    ensures
        action_count(rs, Action::ReportOnly) + action_count(rs, Action::SkippedLimit) + action_count(rs, Action::DryRun)
            + action_count(rs, Action::Quarantined) + action_count(rs, Action::Pending) + action_count(
            rs,
            Action::MoveFailed,
        ) == rs.len(),
    decreases rs.len(),
{
    if rs.len() > 0 {
        action_counts_cover_all_records(rs.drop_last());
    }
}

} // verus!
