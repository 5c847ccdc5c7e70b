use media_maintenance::config::{AppConfig, ConfigError, DiskArgs, DiskConfig, DiskEnv, Setting};
use media_maintenance::disk::{
    affected_artist_paths, any_action, apply_limits, classify, classify_at, classify_located, classify_with, count,
    destination, file_unchanged, finish_move, is_audio_extension, lidarr_path_for, mark_pending, normalize_path, record,
    rescan_required, run_failed, Action, Category, FsFile, Record,
};
use media_maintenance::integrity::{Evidence, EvidenceIndex};
use media_maintenance::lidarr::{Album, Artist, ManualImportItem, TrackFile};

const MTIME_NS: u128 = 1_700_000_000_123_456_789;

fn fixture() -> (DiskConfig, FsFile) {
    let cfg = DiskConfig {
        dry_run: false,
        music_root: "/media/music".into(),
        lidarr_music_root: "/music".into(),
        quarantine_root: "/media/quarantine".into(),
        stale_hours: 0,
        max_files: 10,
        max_bytes: 100,
        scan_concurrency: 1,
        integrity_music_root: "/music".into(),
        clean_untracked: false,
    };
    let file = FsFile {
        source_path: "/media/music/track.flac".into(),
        lidarr_path: "/music/track.flac".into(),
        size: 7,
        mtime_ms: 0,
        mtime_ns: MTIME_NS,
    };
    (cfg, file)
}

/// A fixture whose source is a regular file that exists while the tests run (the
/// library's own root module, relative to the package directory).
fn on_disk_fixture() -> (DiskConfig, FsFile) {
    let (mut cfg, mut file) = fixture();
    cfg.music_root = "src".into();
    cfg.quarantine_root = "quarantine".into();
    file.source_path = "src/lib.rs".into();
    file.lidarr_path = "/music/lib.rs".into();
    (cfg, file)
}

#[test]
fn dry_run_does_not_move_and_limits_are_enforced() {
    let (mut cfg, file) = fixture();
    cfg.dry_run = true;
    let make = |cfg: &DiskConfig| {
        record(cfg, &file, Category::AudioLikelyLossy, "heuristic", None, None, None, false, None).unwrap()
    };
    let mut records = vec![make(&cfg), make(&cfg)];
    cfg.max_files = 1;
    let selected = apply_limits(&cfg, "disk-cleanup-test", &mut records).unwrap();
    assert_eq!(records[0].action.as_str(), "dry_run");
    assert_eq!(records[1].action.as_str(), "skipped_limit");
    assert!(selected.is_empty());
}

#[test]
fn integrity_requires_matching_fingerprint_and_protects_recent_files() {
    let (mut cfg, file) = on_disk_fixture();
    let mut evidence = EvidenceIndex::new();
    let item = Evidence {
        path: file.lidarr_path.clone(),
        size: file.size,
        mtime_ns: file.mtime_ns.to_string(),
        verdict: "corrupt".into(),
        authenticity: "unknown".into(),
        message: "decode failure".into(),
        authenticity_message: "".into(),
        validator_version: "test".into(),
    };
    evidence.insert(item.clone());
    let classify_file = |cfg: &DiskConfig, f: FsFile, e: &EvidenceIndex| {
        classify(cfg, &[f], &[], &[], &[], &[], e).unwrap().remove(0)
    };
    assert_eq!(classify_file(&cfg, file.clone(), &evidence).category.as_str(), "audio_corrupt");
    let mut changed = item.clone();
    changed.mtime_ns = "1".into();
    evidence.insert(changed);
    assert_eq!(classify_file(&cfg, file.clone(), &evidence).category.as_str(), "unknown_to_lidarr");
    cfg.stale_hours = 72;
    let mut recent = file.clone();
    recent.mtime_ms = chrono::Utc::now().timestamp_millis();
    assert_eq!(classify_file(&cfg, recent, &evidence).category.as_str(), "report_only");
}

#[test]
fn corrupt_record_reason_joins_both_messages() {
    let (cfg, file) = on_disk_fixture();
    let mut evidence = EvidenceIndex::new();
    evidence.insert(Evidence {
        path: "/music/lib.rs".into(),
        size: file.size,
        mtime_ns: format!("+{}", file.mtime_ns),
        verdict: "healthy".into(),
        authenticity: "likely_lossy".into(),
        message: "ok".into(),
        authenticity_message: "spectral cutoff".into(),
        validator_version: "v".into(),
    });
    let out = classify_at(&cfg, 1_000, &[file.clone()], &[], &[], &[], &[], &evidence).unwrap();
    assert_eq!(out.len(), 1);
    assert_eq!(out[0].category.as_str(), "audio_likely_lossy");
    assert_eq!(out[0].reason, "ok; spectral cutoff");
    assert!(!out[0].active_known);
}

fn track_file(id: i64, path: &str, artist: i64, album: i64) -> TrackFile {
    TrackFile { id: Some(id), path: Some(path.into()), artist_id: Some(artist), album_id: Some(album) }
}

fn album(id: i64, monitored: bool) -> Album {
    Album { id: Some(id), title: None, album_title: None, album_type: Some("Album".into()), monitored: Some(monitored) }
}

fn artist(id: i64, path: &str) -> Artist {
    Artist {
        id: Some(id),
        artist_name: None,
        name: None,
        monitored: Some(true),
        metadata_profile_id: None,
        metadata_profile_nested_id: None,
        path: Some(path.into()),
    }
}

#[test]
fn tracked_files_are_listed_only_on_unmonitored_albums() {
    let (cfg, file) = fixture();
    let evidence = EvidenceIndex::new();
    let artists = [artist(7, "/music/Artist")];
    let monitored = classify_at(
        &cfg,
        0,
        &[file.clone()],
        &artists,
        &[album(3, true)],
        &[track_file(11, "music\\track.flac", 7, 3)],
        &[],
        &evidence,
    )
    .unwrap();
    assert!(monitored.is_empty());
    let unmonitored = classify_at(
        &cfg,
        0,
        &[file.clone()],
        &artists,
        &[album(3, false)],
        &[track_file(11, "/music/track.flac", 7, 3)],
        &[],
        &evidence,
    )
    .unwrap();
    assert_eq!(unmonitored.len(), 1);
    let r = &unmonitored[0];
    assert_eq!(r.category.as_str(), "known_unmonitored_album");
    assert_eq!(r.reason, "active_lidarr_file_on_unmonitored_album");
    assert_eq!(r.artist_id, Some(7));
    assert_eq!(r.album_id, Some(3));
    assert_eq!(r.track_file_id, Some(11));
    assert!(r.active_known);
    assert_eq!(r.artist_path.as_deref(), Some("/music/Artist"));
}

#[test]
fn untracked_files_split_by_manual_import() {
    let (cfg, file) = fixture();
    let evidence = EvidenceIndex::new();
    let listed = classify_at(
        &cfg,
        0,
        &[file.clone()],
        &[],
        &[],
        &[],
        &[ManualImportItem { path: Some("music/track.flac".into()) }],
        &evidence,
    )
    .unwrap();
    assert_eq!(listed[0].category.as_str(), "duplicate_lower_quality");
    assert_eq!(listed[0].reason, "manual_import_mapping_exists_but_file_is_not_active");
    let unknown = classify_at(&cfg, 0, &[file.clone()], &[], &[], &[], &[], &evidence).unwrap();
    assert_eq!(unknown[0].category.as_str(), "unknown_to_lidarr");
    assert_eq!(unknown[0].reason, "not_active_and_not_seen_by_manual_import");
}

#[test]
fn file_outside_music_root_is_an_error() {
    let (cfg, mut file) = fixture();
    file.source_path = "/elsewhere/track.flac".into();
    let evidence = EvidenceIndex::new();
    assert!(classify_at(&cfg, 0, &[file], &[], &[], &[], &[], &evidence).is_err());
}

#[test]
fn untracked_files_move_only_when_enabled() {
    let (mut cfg, file) = fixture();
    cfg.dry_run = true;
    let rec = || record(&cfg, &file, Category::UnknownToLidarr, "x", None, None, None, false, None).unwrap();
    let mut records = vec![rec()];
    apply_limits(&cfg, "run", &mut records).unwrap();
    assert_eq!(records[0].action, Action::ReportOnly);
    let mut enabled = cfg.clone();
    enabled.clean_untracked = true;
    let mut records = vec![rec()];
    apply_limits(&enabled, "run", &mut records).unwrap();
    assert_eq!(records[0].action, Action::DryRun);
}

#[test]
fn byte_limit_skips_large_files_and_apply_selects_moves() {
    let (mut cfg, file) = fixture();
    cfg.max_bytes = file.size + 1;
    let rec = |cfg: &DiskConfig| record(cfg, &file, Category::AudioCorrupt, "x", None, None, None, false, None).unwrap();
    let mut records = vec![rec(&cfg), rec(&cfg), rec(&cfg)];
    let selected = apply_limits(&cfg, "disk-cleanup-run", &mut records).unwrap();
    assert_eq!(selected, vec![0]);
    assert_eq!(records[0].action.as_str(), "quarantined");
    assert!(records[0].selected_for_move);
    assert!(records[0].quarantine_path.ends_with("quarantine/disk-cleanup-run/track.flac"));
    assert_eq!(records[1].action.as_str(), "skipped_limit");
    assert_eq!(records[2].action.as_str(), "skipped_limit");
    mark_pending(&mut records, &selected);
    assert_eq!(records[0].action, Action::Pending);
    assert_eq!(records[1].action, Action::SkippedLimit);
}

#[test]
fn move_outcomes_update_the_record() {
    let (cfg, file) = fixture();
    let mut rec = record(&cfg, &file, Category::AudioCorrupt, "decode failure", Some(1), None, None, true, Some("/a".into()))
        .unwrap();
    assert!(!file_unchanged(&rec, true, 19, MTIME_NS + 1));
    assert!(!file_unchanged(&rec, false, file.size, file.mtime_ns));
    finish_move(&mut rec, Err("file changed since classification".into()));
    assert_eq!(rec.action.as_str(), "move_failed");
    assert_eq!(rec.reason, "decode failure; file changed since classification");
    assert!(file_unchanged(&rec, true, file.size, file.mtime_ns));
    finish_move(&mut rec, Ok("2026-01-01T00:00:00+00:00".into()));
    assert_eq!(rec.action, Action::Quarantined);
    assert!(rec.quarantined_at.is_some());
    assert!(any_action(std::slice::from_ref(&rec), Action::Quarantined));
    assert_eq!(affected_artist_paths(std::slice::from_ref(&rec)), vec!["/a".to_string()]);
}

#[test]
fn counts_tally_categories_and_actions() {
    let (cfg, file) = fixture();
    let mk = |c| record(&cfg, &file, c, "x", None, None, None, false, None).unwrap();
    let records: Vec<Record> = vec![mk(Category::AudioCorrupt), mk(Category::AudioCorrupt), mk(Category::ReportOnly)];
    let counts = count(&records);
    assert_eq!(counts.by_category, vec![(Category::ReportOnly, 1), (Category::AudioCorrupt, 2)]);
    assert_eq!(counts.by_action, vec![(Action::ReportOnly, 3)]);
}

#[test]
fn paths_are_normalized_and_mapped() {
    assert_eq!(normalize_path("music\\a\\b.flac"), "/music/a/b.flac");
    assert_eq!(normalize_path("/x"), "/x");
    assert_eq!(normalize_path(""), "/");
    assert_eq!(lidarr_path_for("/music/", "Artist\\Album/01.flac"), "/music/Artist/Album/01.flac");
    assert_eq!(destination("/media/music", "/q/run", "/media/music/A/b.flac").ok(), Some("/q/run/A/b.flac".into()));
    assert!(destination("/media/music", "/q/run", "/media/music2/b.flac").is_err());
    assert!(is_audio_extension("flac"));
    assert!(!is_audio_extension("FLAC"));
    assert!(!is_audio_extension("txt"));
}

#[test]
fn disk_config_defaults_to_dry_run() {
    let cfg = DiskConfig::from_env(&DiskArgs { dry_run: false, scan_concurrency: Some(0) }, DiskEnv::default());
    assert!(cfg.dry_run);
    assert_eq!(cfg.music_root, "/media/music");
    assert_eq!(cfg.quarantine_root, "/media/.cleanup-quarantine");
    assert_eq!(cfg.max_bytes, 26_843_545_600);
    assert_eq!(cfg.scan_concurrency, 1);
    let env = DiskEnv { dry_run: Some(false), ..DiskEnv::default() };
    assert!(!DiskConfig::from_env(&DiskArgs { dry_run: false, scan_concurrency: None }, env.clone()).dry_run);
    assert!(DiskConfig::from_env(&DiskArgs { dry_run: true, scan_concurrency: None }, env).dry_run);
}

#[test]
fn quarantine_records_success_and_preserves_changed_files() {
    let (cfg, file) = fixture();
    let mut records = vec![record(&cfg, &file, Category::AudioCorrupt, "decode failure", None, None, None, false, None).unwrap()];
    let selected = apply_limits(&cfg, "disk-cleanup-test", &mut records).unwrap();
    assert_eq!(selected, vec![0]);
    mark_pending(&mut records, &selected);
    assert_eq!(records[0].action.as_str(), "pending");
    // The file on disk was replaced after classification: 19 bytes, a later time.
    let changed_len = "replacement content".len() as u64;
    assert!(!file_unchanged(&records[0], true, changed_len, MTIME_NS + 1));
    finish_move(&mut records[0], Err("file changed since classification".into()));
    assert_eq!(records[0].action.as_str(), "move_failed");
    assert!(records[0].quarantined_at.is_none());

    records[0].size = changed_len;
    records[0].mtime_ns = MTIME_NS + 1;
    let selected = apply_limits(&cfg, "disk-cleanup-test2", &mut records).unwrap();
    assert_eq!(selected, vec![0]);
    assert!(records[0].quarantine_path.ends_with("disk-cleanup-test2/track.flac"));
    mark_pending(&mut records, &selected);
    assert!(file_unchanged(&records[0], true, changed_len, MTIME_NS + 1));
    finish_move(&mut records[0], Ok("2026-09-11T12:00:00+00:00".into()));
    assert_eq!(records[0].action.as_str(), "quarantined");
    assert!(records[0].quarantined_at.is_some());
}

fn corrupt_evidence(path: &str, file: &FsFile) -> Evidence {
    Evidence {
        path: path.into(),
        size: file.size,
        mtime_ns: file.mtime_ns.to_string(),
        verdict: "corrupt".into(),
        authenticity: "unknown".into(),
        message: "decode failure".into(),
        authenticity_message: "".into(),
        validator_version: "test".into(),
    }
}

#[test]
fn the_disk_answer_decides_integrity_entries() {
    let (cfg, file) = fixture();
    let mut evidence = EvidenceIndex::new();
    evidence.insert(corrupt_evidence("/music/track.flac", &file));
    // A Lidarr track file on a monitored album: without evidence it gets no entry.
    let artists = [artist(7, "/music/Artist")];
    let albums = [album(3, true)];
    let tracks = [track_file(11, "/music/track.flac", 7, 3)];
    let on_disk = classify_with(&cfg, 0, &[file.clone()], &artists, &albums, &tracks, &[], &evidence, &[true]).unwrap();
    assert_eq!(on_disk.len(), 1);
    assert_eq!(on_disk[0].category, Category::AudioCorrupt);
    assert_eq!(on_disk[0].reason, "decode failure; ");
    assert!(on_disk[0].active_known);
    assert_eq!(on_disk[0].artist_path.as_deref(), Some("/music/Artist"));
    let gone = classify_with(&cfg, 0, &[file.clone()], &artists, &albums, &tracks, &[], &evidence, &[false]).unwrap();
    assert!(gone.is_empty());
    let untracked = classify_with(&cfg, 0, &[file.clone()], &[], &[], &[], &[], &evidence, &[false]).unwrap();
    assert_eq!(untracked[0].category, Category::UnknownToLidarr);
    let located = classify_located(
        &cfg,
        0,
        &file,
        true,
        "/q/track.flac".into(),
        "/music/track.flac",
        &[],
        &[],
        &[],
        &[],
        &evidence,
    )
    .unwrap();
    assert_eq!(located.category, Category::AudioCorrupt);
    assert_eq!(located.quarantine_path, "/q/track.flac");
    assert!(classify_located(&cfg, 0, &file, true, "/q/track.flac".into(), "/music/other.flac", &artists, &albums, &tracks, &[], &evidence).is_none());
    let item = corrupt_evidence("/music/track.flac", &file);
    assert!(item.matches(true, file.size, file.mtime_ns));
    assert!(!item.matches(false, file.size, file.mtime_ns));
    assert!(!item.matches(true, file.size + 1, file.mtime_ns));
}

#[test]
fn run_outcome_rules() {
    let (cfg, file) = fixture();
    let mut rec = record(&cfg, &file, Category::AudioCorrupt, "x", None, None, None, false, None).unwrap();
    assert!(!run_failed(std::slice::from_ref(&rec), false, false));
    assert!(run_failed(std::slice::from_ref(&rec), true, false));
    assert!(run_failed(std::slice::from_ref(&rec), false, true));
    finish_move(&mut rec, Err("gone".into()));
    assert!(run_failed(std::slice::from_ref(&rec), false, false));
    assert!(rescan_required(false, &["/a".to_string()]));
    assert!(!rescan_required(true, &["/a".to_string()]));
    assert!(!rescan_required(false, &[]));
}

#[test]
fn required_settings_are_named_when_missing() {
    let v = |s: &str| Some(s.to_string());
    let ok = AppConfig::from_env(v("http://l/api/v1"), v("k"), v("/data/c"), v("/data/r")).unwrap();
    assert_eq!(ok.lidarr_base_url, "http://l/api/v1");
    assert_eq!(ok.report_dir, "/data/r");
    assert_eq!(
        AppConfig::from_env(None, v("k"), v("/data/c"), v("/data/r")).unwrap_err(),
        ConfigError::Missing(Setting::LidarrBaseUrl)
    );
    assert_eq!(
        AppConfig::from_env(v("u"), None, None, v("/data/r")).unwrap_err(),
        ConfigError::Missing(Setting::LidarrHeaderValue)
    );
    assert_eq!(AppConfig::from_env(v("u"), v("k"), None, None).unwrap_err(), ConfigError::Missing(Setting::CacheDb));
    assert_eq!(AppConfig::from_env(v("u"), v("k"), v("c"), None).unwrap_err(), ConfigError::Missing(Setting::ReportDir));
    assert_eq!(Setting::CacheDb.variable(), "CACHE_DB");
}
