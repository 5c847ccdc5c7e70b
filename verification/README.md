# media-maintenance

Maintenance jobs for a Lidarr music library: duplicate Single/EP cleanup, disk
cleanup into a quarantine, quarantine retention, and the follow-up refreshes
(Audio Integrity, Navidrome, AudioMuse) after library changes.

The rules of these jobs are a library verified with Verus:

- `src/album.rs` — title normalization, the duplicate matcher, the artist
  fingerprint, cache freshness and the choice of artists for a run;
- `src/disk.rs` — file classification, run limits, move bookkeeping and counts;
- `src/integrity.rs` — validator evidence and the gathering of result pages;
- `src/quarantine.rs` — journal reading and retention;
- `src/refresh.rs` — pending-stage markers and the AudioMuse state machine;
- `src/navidrome.rs`, `src/lidarr.rs`, `src/config.rs`, `src/report.rs` — reply
  reading, Lidarr records and URLs, settings, run ids;
- `src/bindings.rs` — the calls into chrono, sha2, serde_json, urlencoding, uuid
  and `std::path`, each with the contract that the rest is proved against.

`app/` is the command-line program around the library: HTTP clients, the file
system, SQLite, and JSON reports.
