//! Run settings: the command-line options and the environment values (already
//! parsed by the caller), with the defaults that apply when a value is absent.
use vstd::prelude::*;

verus! {

/// Service locations shared by every command.
#[derive(Debug)]
pub struct AppConfig {
    pub lidarr_base_url: String,
    pub lidarr_header_value: String,
    pub cache_db: String,
    pub report_dir: String,
}

/// The value, else the default text.
pub open spec fn or_text(v: Option<String>, default: Seq<char>) -> Seq<char> {
    match v {
        Some(s) => s@,
        None => default,
    }
}

fn or_text_exec(v: Option<String>, default: &str) -> (r: String)
    ensures
        r@ == or_text(v, default@),
{
    match v {
        Some(s) => s,
        None => default.to_owned(),
    }
}

/// A setting that every command needs.
#[derive(Debug, Clone, Copy, PartialEq, Eq, Structural)]
pub enum Setting {
    LidarrBaseUrl,
    LidarrHeaderValue,
    CacheDb,
    ReportDir,
}

impl Setting {
    /// The environment variable that holds the setting.
    pub open spec fn spec_variable(self) -> Seq<char> {
        match self {
            Setting::LidarrBaseUrl => "LIDARR_BASE_URL"@,
            Setting::LidarrHeaderValue => "LIDARR_HEADER_VALUE"@,
            Setting::CacheDb => "CACHE_DB"@,
            Setting::ReportDir => "REPORT_DIR"@,
        }
    }

    /// The environment variable that holds the setting.
    pub fn variable(&self) -> (r: &'static str)
        ensures
            r@ == self.spec_variable(),
    {
        match self {
            Setting::LidarrBaseUrl => "LIDARR_BASE_URL",
            Setting::LidarrHeaderValue => "LIDARR_HEADER_VALUE",
            Setting::CacheDb => "CACHE_DB",
            Setting::ReportDir => "REPORT_DIR",
        }
    }
}

/// Why the settings cannot be made.
#[derive(Debug, Clone, Copy, PartialEq, Eq, Structural)]
pub enum ConfigError {
    /// A required variable is unset.
    Missing(Setting),
}

/// The first required setting (in the order `LIDARR_BASE_URL`, `LIDARR_HEADER_VALUE`,
/// `CACHE_DB`, `REPORT_DIR`) whose value is absent.
pub open spec fn first_missing(
    lidarr_base_url: Option<String>,
    lidarr_header_value: Option<String>,
    cache_db: Option<String>,
    report_dir: Option<String>,
) -> Option<Setting> {
    if lidarr_base_url is None {
        Some(Setting::LidarrBaseUrl)
    } else if lidarr_header_value is None {
        Some(Setting::LidarrHeaderValue)
    } else if cache_db is None {
        Some(Setting::CacheDb)
    } else if report_dir is None {
        Some(Setting::ReportDir)
    } else {
        None
    }
}

impl AppConfig {
    /// Settings from the required environment values `LIDARR_BASE_URL`,
    /// `LIDARR_HEADER_VALUE`, `CACHE_DB` and `REPORT_DIR` (`None` when unset): each
    /// value as given, or an error naming the first one that is unset.
    pub fn from_env(
        lidarr_base_url: Option<String>,
        lidarr_header_value: Option<String>,
        cache_db: Option<String>,
        report_dir: Option<String>,
    ) -> (r: Result<AppConfig, ConfigError>)
        ensures
            match first_missing(lidarr_base_url, lidarr_header_value, cache_db, report_dir) {
                Some(m) => r == Err::<AppConfig, ConfigError>(ConfigError::Missing(m)),
                None => r matches Ok(c) && c.lidarr_base_url@ == lidarr_base_url.unwrap()@
                    && c.lidarr_header_value@ == lidarr_header_value.unwrap()@ && c.cache_db@ == cache_db.unwrap()@
                    && c.report_dir@ == report_dir.unwrap()@,
            },
    {
        let lidarr_base_url = match lidarr_base_url {
            Some(v) => v,
            None => return Err(ConfigError::Missing(Setting::LidarrBaseUrl)),
        };
        let lidarr_header_value = match lidarr_header_value {
            Some(v) => v,
            None => return Err(ConfigError::Missing(Setting::LidarrHeaderValue)),
        };
        let cache_db = match cache_db {
            Some(v) => v,
            None => return Err(ConfigError::Missing(Setting::CacheDb)),
        };
        let report_dir = match report_dir {
            Some(v) => v,
            None => return Err(ConfigError::Missing(Setting::ReportDir)),
        };
        Ok(AppConfig { lidarr_base_url, lidarr_header_value, cache_db, report_dir })
    }
}

/// Options of the `album-cleanup` command.
#[derive(Debug, Clone)]
pub struct AlbumArgs {
    pub artist_id: Option<i64>,
    pub force: bool,
    pub dry_run: bool,
    pub concurrency: Option<usize>,
}

/// Album-cleanup environment values, each `None` when unset or not parsable.
#[derive(Debug, Clone, Default)]
pub struct AlbumEnv {
    /// `ALBUM_TARGET_METADATA_PROFILE_ID`
    pub target_metadata_profile_id: Option<i64>,
    /// `ALBUM_APPLY`
    pub apply: Option<bool>,
    /// `ALBUM_CONCURRENCY`
    pub concurrency: Option<usize>,
    /// `ALBUM_MAX_ARTISTS_PER_RUN`
    pub max_artists_per_run: Option<usize>,
    /// `ALBUM_CACHE_DAYS`
    pub cache_days: Option<i64>,
    /// `ALBUM_DURATION_TOLERANCE_MS`
    pub duration_tolerance_ms: Option<i64>,
    /// `ALBUM_PROCESS_ONLY_MONITORED_ARTISTS`
    pub only_monitored_artists: Option<bool>,
    /// `ALBUM_PROCESS_ONLY_MONITORED_RELEASES`
    pub only_monitored_releases: Option<bool>,
    /// `ALBUM_AUTO_UNMONITOR_DUPLICATES`
    pub auto_unmonitor_duplicates: Option<bool>,
}

/// Effective album-cleanup settings.
#[derive(Debug, Clone)]
pub struct AlbumConfig {
    pub target_metadata_profile_id: i64,
    pub apply: bool,
    pub concurrency: usize,
    pub max_artists_per_run: usize,
    pub cache_days: i64,
    pub duration_tolerance_ms: i64,
    pub only_monitored_artists: bool,
    pub only_monitored_releases: bool,
    pub auto_unmonitor_duplicates: bool,
}

/// The value, else the default.
pub open spec fn or_default<T>(v: Option<T>, d: T) -> T {
    match v {
        Some(x) => x,
        None => d,
    }
}

fn or_i64(v: Option<i64>, d: i64) -> (r: i64)
    ensures
        r == or_default(v, d),
{
    match v {
        Some(x) => x,
        None => d,
    }
}

fn or_usize(v: Option<usize>, d: usize) -> (r: usize)
    ensures
        r == or_default(v, d),
{
    match v {
        Some(x) => x,
        None => d,
    }
}

fn or_bool(v: Option<bool>, d: bool) -> (r: bool)
    ensures
        r == or_default(v, d),
{
    match v {
        Some(x) => x,
        None => d,
    }
}

fn or_u64(v: Option<u64>, d: u64) -> (r: u64)
    ensures
        r == or_default(v, d),
{
    match v {
        Some(x) => x,
        None => d,
    }
}

/// At least one.
pub open spec fn at_least_one(n: usize) -> usize {
    if n < 1 { 1 } else { n }
}

impl AlbumConfig {
    /// The effective settings: writes need apply mode in the environment and no
    /// `--dry-run`; the concurrency comes from the option, else the environment,
    /// else 16, and is at least 1.
    pub fn from_env(args: &AlbumArgs, env: &AlbumEnv) -> (r: AlbumConfig)
        ensures
            r.target_metadata_profile_id == or_default(env.target_metadata_profile_id, 3),
            r.apply == (or_default(env.apply, true) && !args.dry_run),
            r.concurrency == at_least_one(
                or_default(args.concurrency, or_default(env.concurrency, 16usize)),
            ),
            r.max_artists_per_run == or_default(env.max_artists_per_run, 1000usize),
            r.cache_days == or_default(env.cache_days, 30),
            r.duration_tolerance_ms == or_default(env.duration_tolerance_ms, 5000),
            r.only_monitored_artists == or_default(env.only_monitored_artists, true),
            r.only_monitored_releases == or_default(env.only_monitored_releases, true),
            r.auto_unmonitor_duplicates == or_default(env.auto_unmonitor_duplicates, true),
    {
        let c = or_usize(args.concurrency, or_usize(env.concurrency, 16));
        AlbumConfig {
            target_metadata_profile_id: or_i64(env.target_metadata_profile_id, 3),
            apply: or_bool(env.apply, true) && !args.dry_run,
            concurrency: if c < 1 { 1 } else { c },
            max_artists_per_run: or_usize(env.max_artists_per_run, 1000),
            cache_days: or_i64(env.cache_days, 30),
            duration_tolerance_ms: or_i64(env.duration_tolerance_ms, 5000),
            only_monitored_artists: or_bool(env.only_monitored_artists, true),
            only_monitored_releases: or_bool(env.only_monitored_releases, true),
            auto_unmonitor_duplicates: or_bool(env.auto_unmonitor_duplicates, true),
        }
    }
}

/// Options of the `disk-cleanup` command.
#[derive(Debug, Clone)]
pub struct DiskArgs {
    pub dry_run: bool,
    pub scan_concurrency: Option<usize>,
}

/// Disk-cleanup environment values, each `None` when unset or not parsable.
#[derive(Debug, Clone, Default)]
pub struct DiskEnv {
    /// `DISK_DRY_RUN`
    pub dry_run: Option<bool>,
    /// `DISK_MUSIC_ROOT`
    pub music_root: Option<String>,
    /// `DISK_LIDARR_MUSIC_ROOT`
    pub lidarr_music_root: Option<String>,
    /// `DISK_QUARANTINE_ROOT`
    pub quarantine_root: Option<String>,
    /// `DISK_STALE_HOURS`
    pub stale_hours: Option<i64>,
    /// `DISK_MAX_FILES`
    pub max_files: Option<usize>,
    /// `DISK_MAX_BYTES`
    pub max_bytes: Option<u64>,
    /// `DISK_SCAN_CONCURRENCY`
    pub scan_concurrency: Option<usize>,
    /// `AUDIO_INTEGRITY_MUSIC_ROOT`
    pub integrity_music_root: Option<String>,
    /// `DISK_CLEAN_UNTRACKED`
    pub clean_untracked: Option<bool>,
}

/// Effective disk-cleanup settings.
#[derive(Debug, Clone)]
pub struct DiskConfig {
    pub dry_run: bool,
    pub music_root: String,
    pub lidarr_music_root: String,
    pub quarantine_root: String,
    pub stale_hours: i64,
    pub max_files: usize,
    pub max_bytes: u64,
    pub scan_concurrency: usize,
    /// Where the Audio Integrity service sees the music root.
    pub integrity_music_root: String,
    /// Whether files unknown to Lidarr may be moved.
    pub clean_untracked: bool,
}

impl DiskConfig {
    /// The effective settings: dry-run unless both the option and the environment
    /// allow moves (the environment defaults to dry-run).
    pub fn from_env(args: &DiskArgs, env: DiskEnv) -> (r: DiskConfig)
        ensures
            r.dry_run == (args.dry_run || or_default(env.dry_run, true)),
            r.music_root@ == or_text(env.music_root, "/media/music"@),
            r.lidarr_music_root@ == or_text(env.lidarr_music_root, "/music"@),
            r.quarantine_root@ == or_text(env.quarantine_root, "/media/.cleanup-quarantine"@),
            r.stale_hours == or_default(env.stale_hours, 72),
            r.max_files == or_default(env.max_files, 100usize),
            r.max_bytes == or_default(env.max_bytes, 26_843_545_600u64),
            r.scan_concurrency == at_least_one(
                or_default(args.scan_concurrency, or_default(env.scan_concurrency, 16usize)),
            ),
            r.integrity_music_root@ == or_text(env.integrity_music_root, "/music"@),
            r.clean_untracked == or_default(env.clean_untracked, false),
    {
        let c = or_usize(args.scan_concurrency, or_usize(env.scan_concurrency, 16));
        DiskConfig {
            dry_run: args.dry_run || or_bool(env.dry_run, true),
            music_root: or_text_exec(env.music_root, "/media/music"),
            lidarr_music_root: or_text_exec(env.lidarr_music_root, "/music"),
            quarantine_root: or_text_exec(env.quarantine_root, "/media/.cleanup-quarantine"),
            stale_hours: or_i64(env.stale_hours, 72),
            max_files: or_usize(env.max_files, 100),
            max_bytes: or_u64(env.max_bytes, 26_843_545_600),
            scan_concurrency: if c < 1 { 1 } else { c },
            integrity_music_root: or_text_exec(env.integrity_music_root, "/music"),
            clean_untracked: or_bool(env.clean_untracked, false),
        }
    }
}

} // verus!
