pub mod album;
pub mod bindings;
pub mod config;
pub mod disk;
pub mod integrity;
pub mod lidarr;
pub mod navidrome;
pub mod quarantine;
pub mod refresh;
pub mod report;
pub mod storage;
pub mod text;
pub mod time;
