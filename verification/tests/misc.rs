use media_maintenance::integrity::{absorb_page, parse_u128, scan_progress, Evidence, EvidenceIndex, IntegrityError, ScanProgress};
use media_maintenance::lidarr::{album_type, api_base, manual_import_path, request_url, albums_for_artist_path, Album};
use media_maintenance::navidrome::{scan_reply, ScanReply};
use media_maintenance::quarantine::{
    complete_lines, cutoff, entry_unchanged, expired_path, is_run_directory, may_remove, merge_outcome, plan_old_enough, FileFacts,
    JournalEntry,
};
use media_maintenance::report::{now_iso, report_file_name, run_id};
use media_maintenance::time::Instant;

fn instant(s: &str) -> Instant {
    let dt = chrono::DateTime::parse_from_rfc3339(s).unwrap();
    Instant { secs: dt.timestamp(), nanos: dt.timestamp_subsec_nanos() }
}

fn evidence(path: &str, version: &str) -> Evidence {
    Evidence {
        path: path.into(),
        size: 1,
        mtime_ns: "1".into(),
        verdict: "corrupt".into(),
        authenticity: "".into(),
        message: "".into(),
        authenticity_message: "".into(),
        validator_version: version.into(),
    }
}

#[test]
fn integrity_pages_keep_current_version_only() {
    let mut index = EvidenceIndex::new();
    let next = absorb_page(&mut index, "v2", vec![evidence("/a", "v1"), evidence("/b", "v2")], 0, 3).unwrap();
    assert_eq!(next, (2, false));
    assert_eq!(index.len(), 1);
    assert!(index.get("/a").is_none());
    assert_eq!(absorb_page(&mut index, "v2", vec![], 2, 3), Err(IntegrityError::IncompleteResults));
    let done = absorb_page(&mut index, "v2", vec![evidence("/b", "v2")], 2, 3).unwrap();
    assert_eq!(done, (3, true));
    assert_eq!(scan_progress(Some("scanning")), ScanProgress::Running);
    assert_eq!(scan_progress(Some("completed")), ScanProgress::Completed);
    assert_eq!(scan_progress(Some("failed")), ScanProgress::Failed);
    assert_eq!(scan_progress(None), ScanProgress::Failed);
}

#[test]
fn evidence_categories() {
    let mut e = evidence("/a", "v");
    assert_eq!(e.category(), Some("audio_corrupt"));
    e.verdict = "healthy".into();
    e.authenticity = "likely_lossy".into();
    assert_eq!(e.category(), Some("audio_likely_lossy"));
    e.verdict = "error".into();
    assert_eq!(e.category(), None);
    assert!(e.matches_fingerprint(1, 1));
    assert!(!e.matches_fingerprint(1, 2));
    e.path = "relative".into();
    assert!(!e.matches_fingerprint(1, 1));
}

#[test]
fn u128_parsing_follows_from_str() {
    assert_eq!(parse_u128("123"), Some(123));
    assert_eq!(parse_u128("+7"), Some(7));
    assert_eq!(parse_u128("+"), None);
    assert_eq!(parse_u128(""), None);
    assert_eq!(parse_u128("-1"), None);
    assert_eq!(parse_u128("1x"), None);
    assert_eq!(parse_u128(&u128::MAX.to_string()), Some(u128::MAX));
    assert_eq!(parse_u128("340282366920938463463374607431768211456"), None);
}

#[test]
fn lidarr_urls() {
    assert_eq!(api_base("http://lidarr:8686/api/v1//"), "http://lidarr:8686/api/v1");
    assert_eq!(request_url("http://h/api", "/artist"), "http://h/api/artist");
    assert_eq!(request_url("http://h/api", "artist"), "http://h/api/artist");
    assert_eq!(request_url("http://h/api", "http://other/x"), "http://other/x");
    assert_eq!(albums_for_artist_path(-12), "/album?artistId=-12");
    assert_eq!(
        manual_import_path("/music/A B"),
        "/manualimport?folder=%2Fmusic%2FA%20B&filterExistingFiles=false&replaceExistingFiles=true"
    );
    let a = Album { id: None, title: None, album_title: None, album_type: Some("EP".into()), monitored: None };
    assert_eq!(album_type(&a), "ep");
}

#[test]
fn navidrome_replies() {
    assert_eq!(scan_reply(Some("failed"), Some(false), false), ScanReply::Failed);
    assert_eq!(scan_reply(Some("ok"), Some(false), true), ScanReply::Finished);
    assert_eq!(scan_reply(Some("ok"), Some(true), false), ScanReply::Wait);
    assert_eq!(scan_reply(Some("ok"), None, true), ScanReply::TimedOut);
}

fn entry(source: &str, action: &str, at: Option<&str>, path: &str) -> JournalEntry {
    JournalEntry {
        source_key: format!("\"{source}\""),
        quarantine_key: format!("\"{path}\""),
        action: Some(action.into()),
        quarantined_at: at.map(String::from),
        quarantine_path: Some(path.into()),
        size: Some(5),
        mtime_ns: Some(42),
    }
}

#[test]
fn retention_reads_journal_and_expires_old_moves() {
    let now = instant("2026-03-01T00:00:00Z");
    let cut = cutoff(now);
    assert_eq!(cut, instant("2026-01-30T00:00:00Z"));
    assert!(is_run_directory("disk-cleanup-20260101"));
    assert!(!is_run_directory("manifests"));
    let old = "2026-01-01T00:00:00Z";
    let text = format!(
        "{{\"x\":1}}\n{{\"y\":2}}\n{{incomplete final entry"
    );
    let lines = complete_lines(&text);
    assert_eq!(lines, vec!["{\"x\":1}\n".to_string(), "{\"y\":2}\n".to_string()]);
    let mut plan = vec![entry("/m/a", "pending", None, "/q/a"), entry("/m/b", "pending", None, "/q/b")];
    merge_outcome(&mut plan, entry("/m/a", "quarantined", Some(old), "/q/a"));
    merge_outcome(&mut plan, entry("/m/z", "quarantined", Some(old), "/q/z"));
    assert_eq!(plan.len(), 2);
    assert_eq!(expired_path(&plan[0], cut), Ok(Some("/q/a".to_string())));
    assert_eq!(expired_path(&plan[1], cut), Ok(None));
    let recent = entry("/m/c", "quarantined", Some("2026-02-20T00:00:00Z"), "/q/c");
    assert_eq!(expired_path(&recent, cut), Ok(None));
    let garbled = entry("/m/d", "quarantined", Some("soon"), "/q/d");
    assert!(expired_path(&garbled, cut).is_err());
    assert!(entry_unchanged(&plan[0], 5, 42));
    assert!(!entry_unchanged(&plan[0], 6, 42));
    assert_eq!(plan_old_enough(Some(old), cut), Ok(true));
    assert_eq!(plan_old_enough(Some("2026-02-28T00:00:00Z"), cut), Ok(false));
    assert!(plan_old_enough(None, cut).is_err());
}

#[test]
fn run_ids_and_report_names() {
    let id = run_id("disk-cleanup");
    assert!(id.starts_with("disk-cleanup-"));
    let suffix = &id[id.len() - 32..];
    assert!(suffix.chars().all(|c| c.is_ascii_hexdigit() && !c.is_ascii_uppercase()));
    assert_eq!(id.len(), "disk-cleanup-".len() + 16 + 1 + 32);
    assert_eq!(report_file_name("album-cleanup", "r"), "album-cleanup-r.json");
}

fn journal_entry(record: &serde_json::Value) -> JournalEntry {
    JournalEntry {
        source_key: record["source_path"].to_string(),
        quarantine_key: record["quarantine_path"].to_string(),
        action: record["action"].as_str().map(String::from),
        quarantined_at: record["quarantined_at"].as_str().map(String::from),
        quarantine_path: record["quarantine_path"].as_str().map(String::from),
        size: record["size"].as_u64(),
        mtime_ns: record["mtime_ns"].as_u64(),
    }
}

fn moved_record(name: &str, at: &str) -> serde_json::Value {
    let mut m = serde_json::Map::new();
    m.insert("action".into(), serde_json::Value::from("quarantined"));
    m.insert("source_path".into(), serde_json::Value::from(format!("/music/{name}")));
    m.insert("quarantine_path".into(), serde_json::Value::from(format!("/q/disk-cleanup-test/{name}")));
    m.insert("size".into(), serde_json::Value::from(5u64));
    m.insert("mtime_ns".into(), serde_json::Value::from(1_700_000_000_000_000_000u64));
    m.insert("quarantined_at".into(), serde_json::Value::from(at));
    serde_json::Value::Object(m)
}

#[test]
fn retention_uses_move_time_and_preserves_unlisted_or_changed_files() {
    let now = chrono::Utc::now();
    let cut = cutoff(Instant { secs: now.timestamp(), nanos: now.timestamp_subsec_nanos() });
    let old = (now - chrono::Duration::days(31)).to_rfc3339();
    let moved: Vec<serde_json::Value> = [("expired.flac", old.clone()), ("recent.flac", now.to_rfc3339()), ("changed.flac", old.clone())]
        .iter()
        .map(|(name, at)| moved_record(name, at))
        .collect();
    // The saved plan lists every move as pending; the outcome journal has one complete
    // line per move and a torn final entry.
    let mut outcomes = String::new();
    let mut plan = Vec::new();
    for record in &moved {
        outcomes.push_str(&serde_json::to_string(record).unwrap());
        outcomes.push('\n');
        let mut pending = record.clone();
        pending["action"] = serde_json::Value::from("pending");
        plan.push(journal_entry(&pending));
    }
    outcomes.push_str("{incomplete final entry");
    assert_eq!(plan_old_enough(Some(&old), cut), Ok(true));
    assert!(plan.iter().all(|e| expired_path(e, cut) == Ok(None)));
    let lines = complete_lines(&outcomes);
    assert_eq!(lines.len(), 3);
    for line in &lines {
        let record: serde_json::Value = serde_json::from_str(line).unwrap();
        merge_outcome(&mut plan, journal_entry(&record));
    }
    let expired = expired_path(&plan[0], cut).unwrap().unwrap();
    assert_eq!(expired, "/q/disk-cleanup-test/expired.flac");
    assert!(entry_unchanged(&plan[0], 5, 1_700_000_000_000_000_000));
    assert_eq!(expired_path(&plan[1], cut), Ok(None));
    // The changed file is due, but its size no longer matches: it stays.
    assert!(expired_path(&plan[2], cut).unwrap().is_some());
    assert!(!entry_unchanged(&plan[2], "new contents".len() as u64, 1_700_000_000_000_000_000));
    let facts = |len: u64| Some(FileFacts { is_file: true, inside_run: true, len, mtime_ns: 1_700_000_000_000_000_000 });
    assert_eq!(may_remove(&plan[0], cut, facts(5)), Ok(true));
    assert_eq!(may_remove(&plan[1], cut, facts(5)), Ok(false));
    assert_eq!(may_remove(&plan[2], cut, facts(12)), Ok(false));
    assert_eq!(may_remove(&plan[0], cut, None), Ok(false));
    let link = Some(FileFacts { is_file: false, inside_run: false, len: 5, mtime_ns: 1_700_000_000_000_000_000 });
    assert_eq!(may_remove(&plan[0], cut, link), Ok(false));
    // A file that no entry lists never expires.
    assert!(plan.iter().all(|e| e.quarantine_path.as_deref() != Some("/q/disk-cleanup-test/unlisted.flac")));
}

#[test]
fn now_iso_reads_back_as_the_current_time() {
    let before = chrono::Utc::now();
    let text = now_iso();
    let after = chrono::Utc::now();
    assert!(text.ends_with("+00:00"));
    let at = chrono::DateTime::parse_from_rfc3339(&text).unwrap();
    assert!(before <= at && at <= after);
}
