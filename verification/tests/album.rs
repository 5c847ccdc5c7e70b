use media_maintenance::album::{
    artist_fingerprint, artist_status, build_full_track_index, normalize_lowered, cache_hit_at, classify_release, fingerprint_document, normalize,
    plan_releases, profile_action, profile_exists, select_artists_at, summary_start, tally, ArtistOutcome,
    ProfileAction, ReleaseDecision, TrackKey,
};
use media_maintenance::config::{AlbumArgs, AlbumConfig, AlbumEnv};
use media_maintenance::lidarr::{Album, Artist, RawJson, Track};
use media_maintenance::storage::ArtistCache;
use media_maintenance::time::Instant;
use sha2::Digest;

fn cfg() -> AlbumConfig {
    AlbumConfig::from_env(
        &AlbumArgs { artist_id: None, force: false, dry_run: false, concurrency: None },
        &AlbumEnv::default(),
    )
}

fn key(title: &str, ms: i64) -> TrackKey {
    TrackKey { title: title.into(), duration_ms: ms }
}

#[test]
fn normalize_folds_case_punctuation_and_spacing() {
    assert_eq!(normalize("  Hello,   World! (Remix) "), "hello world remix");
    assert_eq!(normalize("Don't Stop"), "don t stop");
    assert_eq!(normalize("***"), "");
    assert_eq!(normalize(&normalize("A  B")), normalize("A  B"));
}

#[test]
fn release_decisions() {
    let index = vec![key("song a", 200_000), key("song b", 100_000)];
    assert_eq!(classify_release(&[], &index, 5000), ReleaseDecision::Review);
    assert_eq!(classify_release(&[key("song a", 203_000)], &index, 5000), ReleaseDecision::Duplicate);
    assert_eq!(classify_release(&[key("song a", 206_000)], &index, 5000), ReleaseDecision::Review);
    assert_eq!(classify_release(&[key("song a", 200_000), key("other", 1)], &index, 5000), ReleaseDecision::Keep);
    assert_eq!(classify_release(&[key("song a", 206_000)], &index, 6000), ReleaseDecision::Duplicate);
    assert_eq!(ReleaseDecision::Duplicate.as_str(), "DUPLICATE");
}

fn album(id: i64, kind: &str, title: &str, monitored: bool) -> Album {
    Album { id: Some(id), title: Some(title.into()), album_title: None, album_type: Some(kind.into()), monitored: Some(monitored) }
}

fn track(album_id: i64, title: &str, ms: i64) -> Track {
    Track { album_id: Some(album_id), album_nested_id: None, title: Some(title.into()), track_title: None, duration_ms: Some(ms) }
}

#[test]
fn singles_on_full_albums_are_unmonitored_in_apply_mode() {
    let albums = vec![
        album(1, "Album", "LP", true),
        album(2, "Single", "Hit", true),
        album(3, "EP", "Extras", true),
        album(4, "Single", "Hidden", false),
    ];
    let tracks = vec![
        track(1, "Hit", 180_000),
        track(1, "Deep Cut", 240_000),
        track(2, "HIT!", 181_000),
        track(3, "Hit", 180_000),
        track(3, "Bonus", 100_000),
        Track { album_id: None, album_nested_id: Some(4), title: None, track_title: Some("Hit".into()), duration_ms: None },
    ];
    let index = build_full_track_index(&albums, &tracks);
    assert_eq!(index.len(), 2);
    let plans = plan_releases(&albums, &tracks, &cfg());
    assert_eq!(plans.len(), 2);
    assert_eq!(plans[0].release_id, 2);
    assert_eq!(plans[0].release_type, "single");
    assert_eq!(plans[0].decision, ReleaseDecision::Duplicate);
    assert_eq!(plans[0].track_count, 1);
    assert!(plans[0].unmonitor);
    assert_eq!(plans[1].title, "Extras");
    assert_eq!(plans[1].decision, ReleaseDecision::Keep);
    assert!(!plans[1].unmonitor);
    let dry = AlbumConfig::from_env(
        &AlbumArgs { artist_id: None, force: false, dry_run: true, concurrency: None },
        &AlbumEnv::default(),
    );
    assert!(!plan_releases(&albums, &tracks, &dry)[0].unmonitor);
}

fn artist(id: Option<i64>, name: &str, monitored: bool, profile: Option<i64>) -> Artist {
    Artist {
        id,
        artist_name: Some(name.into()),
        name: None,
        monitored: Some(monitored),
        metadata_profile_id: profile.map(|p| RawJson { text: p.to_string(), as_i64: Some(p) }),
        metadata_profile_nested_id: None,
        path: None,
    }
}

#[test]
fn fingerprint_hashes_the_sorted_document() {
    let a = artist(Some(5), "Name \"Q\"", true, Some(3));
    let doc = fingerprint_document(&a, &cfg());
    assert_eq!(
        doc,
        "{\"artistId\":5,\"artistName\":\"Name \\\"Q\\\"\",\"metadataProfileId\":3,\"monitored\":true,\"settings\":{\"autoUnmonitorDuplicates\":true,\"durationToleranceMs\":5000,\"targetMetadataProfileId\":3}}"
    );
    let expected = format!("{:x}", sha2::Sha256::digest(doc.as_bytes()));
    let fp = artist_fingerprint(&a, &cfg());
    assert_eq!(fp, expected);
    assert_eq!(fp.len(), 64);
    let b = Artist { id: None, artist_name: None, name: None, monitored: None, metadata_profile_id: None, metadata_profile_nested_id: None, path: None };
    assert_eq!(
        fingerprint_document(&b, &cfg()),
        "{\"artistId\":null,\"artistName\":\"unknown\",\"metadataProfileId\":null,\"monitored\":null,\"settings\":{\"autoUnmonitorDuplicates\":true,\"durationToleranceMs\":5000,\"targetMetadataProfileId\":3}}"
    );
}

fn instant(s: &str) -> Instant {
    let dt = chrono::DateTime::parse_from_rfc3339(s).unwrap();
    Instant { secs: dt.timestamp(), nanos: dt.timestamp_subsec_nanos() }
}

#[test]
fn cache_rows_are_fresh_for_thirty_days() {
    let row = ArtistCache { artist_id: 1, fingerprint: "fp".into(), processed_at: "2026-01-01T00:00:00Z".into(), status: "success".into() };
    assert!(cache_hit_at(instant("2026-01-31T23:59:59Z"), &row, "fp", 30));
    assert!(!cache_hit_at(instant("2026-02-01T00:00:00Z"), &row, "fp", 30));
    assert!(!cache_hit_at(instant("2026-01-02T00:00:00Z"), &row, "other", 30));
    let failed = ArtistCache { status: "error".into(), ..row.clone() };
    assert!(!cache_hit_at(instant("2026-01-02T00:00:00Z"), &failed, "fp", 30));
    let garbled = ArtistCache { processed_at: "yesterday".into(), ..row };
    assert!(!cache_hit_at(instant("2026-01-02T00:00:00Z"), &garbled, "fp", 30));
}

#[test]
fn selection_sorts_skips_cached_and_defers_over_limit() {
    let c = AlbumConfig { max_artists_per_run: 1, ..cfg() };
    let artists = vec![
        artist(Some(3), "C", true, Some(3)),
        artist(Some(1), "A", true, Some(3)),
        artist(Some(2), "B", false, Some(3)),
        artist(None, "D", true, Some(3)),
        artist(Some(4), "E", true, Some(3)),
    ];
    let fp1 = artist_fingerprint(&artists[1], &c);
    let rows = vec![ArtistCache { artist_id: 1, fingerprint: fp1, processed_at: "2026-01-01T00:00:00Z".into(), status: "success".into() }];
    let args = AlbumArgs { artist_id: None, force: false, dry_run: false, concurrency: None };
    let sel = select_artists_at(instant("2026-01-05T00:00:00Z"), artists.clone(), &rows, &args, &c);
    assert_eq!(sel.artists_scanned, 4);
    assert_eq!(sel.cache_hits, 1);
    assert_eq!(sel.cache_misses, 1);
    assert_eq!(sel.deferred_by_limit, 1);
    assert_eq!(sel.selected.len(), 1);
    assert_eq!(sel.selected[0].artist.id, Some(3));
    let forced = AlbumArgs { force: true, artist_id: Some(1), ..args };
    let sel = select_artists_at(instant("2026-01-05T00:00:00Z"), artists, &rows, &forced, &c);
    assert_eq!(sel.artists_scanned, 1);
    assert_eq!(sel.cache_hits, 0);
    assert_eq!(sel.selected[0].artist.id, Some(1));
}

#[test]
fn profile_mismatch_is_updated_or_reported() {
    let a = artist(Some(1), "A", true, Some(2));
    assert_eq!(profile_action(&a, &cfg()), Some(ProfileAction::Updated));
    assert_eq!(ProfileAction::WouldUpdate.as_str(), "would_update");
    let ok = artist(Some(1), "A", true, Some(3));
    assert_eq!(profile_action(&ok, &cfg()), None);
    assert!(profile_exists(&[Some(1), None, Some(3)], 3));
    assert!(!profile_exists(&[Some(1)], 3));
}

#[test]
fn summary_adds_outcomes() {
    let sel = media_maintenance::album::ArtistSelection { selected: vec![], artists_scanned: 3, cache_hits: 1, cache_misses: 2, deferred_by_limit: 0 };
    let mut s = summary_start(&sel);
    tally(&mut s, Some(ArtistOutcome { metadata_updated: false, duplicates: 2, reviews: 1, keeps: 1, unmonitored: 2, errors: 0 }));
    tally(&mut s, None);
    assert_eq!(s.artists_processed, 1);
    assert_eq!(s.releases_checked, 4);
    assert_eq!(s.unmonitored_releases, 2);
    assert_eq!(s.errors, 1);
    assert_eq!(s.cache_hits, 1);
}

#[test]
fn album_config_defaults_and_dry_run() {
    let c = cfg();
    assert_eq!(c.target_metadata_profile_id, 3);
    assert!(c.apply);
    assert_eq!(c.concurrency, 16);
    assert_eq!(c.max_artists_per_run, 1000);
    assert_eq!(c.duration_tolerance_ms, 5000);
    let env = AlbumEnv { apply: Some(false), concurrency: Some(0), ..AlbumEnv::default() };
    let c = AlbumConfig::from_env(&AlbumArgs { artist_id: None, force: false, dry_run: false, concurrency: None }, &env);
    assert!(!c.apply);
    assert_eq!(c.concurrency, 1);
}

#[test]
fn lowered_titles_and_artist_status() {
    assert_eq!(normalize_lowered("  hello,   wörld!! (live) "), "hello w rld live");
    assert_eq!(normalize_lowered("ABC def"), "ABC def");
    assert_eq!(normalize("Hello  World"), normalize("HELLO WORLD"));
    let once = normalize("  Ça  va -- Straße ");
    assert_eq!(normalize(&once), once);
    assert_eq!(artist_status(0), "success");
    assert_eq!(artist_status(2), "error");
}
