//! Rows of the per-artist run cache.
use vstd::prelude::*;

verus! {

/// The outcome of the last run for one artist.
#[derive(Debug, Clone)]
pub struct ArtistCache {
    pub artist_id: i64,
    pub fingerprint: String,
    /// RFC 3339 time of the run.
    pub processed_at: String,
    /// `success` or `error`.
    pub status: String,
}

} // verus!
