//! The Lidarr objects that the cleanup rules read, held as plain values, and the
//! rules that read them: name fallbacks, release types, the request URLs.
use vstd::prelude::*;

use crate::bindings::{percent_encode, text_lowercase, to_lowercase, url_encode};
use crate::text::{chars_of, decimal, decimal_i64, has_prefix, push_str, starts_with, string_of, trim_end_char, trim_end_in_place};
use vstd::utf8::encode_utf8;

verus! {

/// A JSON value found under some key of a Lidarr object: its compact JSON text and,
/// when it is an integer that fits, that integer.
#[derive(Clone, Debug)]
pub struct RawJson {
    pub text: String,
    pub as_i64: Option<i64>,
}

/// A Lidarr artist, as far as the cleanup reads it. Each field holds the value under
/// the JSON key named beside it when it has the expected JSON type.
#[derive(Clone, Debug)]
pub struct Artist {
    /// `id`
    pub id: Option<i64>,
    /// `artistName`
    pub artist_name: Option<String>,
    /// `name`
    pub name: Option<String>,
    /// `monitored`
    pub monitored: Option<bool>,
    /// `metadataProfileId`, of any JSON type, when the key is present
    pub metadata_profile_id: Option<RawJson>,
    /// `metadataProfile.id`, of any JSON type, when present
    pub metadata_profile_nested_id: Option<RawJson>,
    /// `path`
    pub path: Option<String>,
}

/// A Lidarr album (a release of any type).
#[derive(Clone, Debug)]
pub struct Album {
    /// `id`
    pub id: Option<i64>,
    /// `title`
    pub title: Option<String>,
    /// `albumTitle`
    pub album_title: Option<String>,
    /// `albumType`
    pub album_type: Option<String>,
    /// `monitored`
    pub monitored: Option<bool>,
}

/// A Lidarr track.
#[derive(Clone, Debug)]
pub struct Track {
    /// `albumId`
    pub album_id: Option<i64>,
    /// `album.id`
    pub album_nested_id: Option<i64>,
    /// `title`
    pub title: Option<String>,
    /// `trackTitle`
    pub track_title: Option<String>,
    /// The track length in milliseconds (from `durationMs`, else `duration`).
    pub duration_ms: Option<i64>,
}

/// A Lidarr track file.
#[derive(Clone, Debug)]
pub struct TrackFile {
    /// `id`
    pub id: Option<i64>,
    /// `path`
    pub path: Option<String>,
    /// `artistId`
    pub artist_id: Option<i64>,
    /// `albumId`
    pub album_id: Option<i64>,
}

/// An item of Lidarr's manual-import listing.
#[derive(Clone, Debug)]
pub struct ManualImportItem {
    /// `path`
    pub path: Option<String>,
}

/// The first present text of two, else a fallback.
pub open spec fn first_text(a: Option<String>, b: Option<String>, fallback: Seq<char>) -> Seq<char> {
    match a {
        Some(s) => s@,
        None => match b {
            Some(s) => s@,
            None => fallback,
        },
    }
}

fn first_text_exec(a: &Option<String>, b: &Option<String>, fallback: &str) -> (r: String)
    ensures
        r@ == first_text(*a, *b, fallback@),
{
    match a {
        Some(s) => s.clone(),
        None => match b {
            Some(s) => s.clone(),
            None => fallback.to_owned(),
        },
    }
}

/// `artistName`, else `name`, else `unknown`.
pub open spec fn spec_artist_name(a: Artist) -> Seq<char> {
    first_text(a.artist_name, a.name, "unknown"@)
}

/// The artist's display name: `artistName`, else `name`, else `unknown`.
pub fn artist_name(a: &Artist) -> (r: String)
    ensures
        r@ == spec_artist_name(*a),
{
    first_text_exec(&a.artist_name, &a.name, "unknown")
}

/// `title`, else `albumTitle`, else `unknown`.
pub open spec fn spec_album_title(a: Album) -> Seq<char> {
    first_text(a.title, a.album_title, "unknown"@)
}

/// The release title: `title`, else `albumTitle`, else `unknown`.
pub fn album_title(a: &Album) -> (r: String)
    ensures
        r@ == spec_album_title(*a),
{
    first_text_exec(&a.title, &a.album_title, "unknown")
}

/// The lower-cased `albumType`, empty when absent.
pub open spec fn spec_album_type(a: Album) -> Seq<char> {
    text_lowercase(first_text(a.album_type, None, ""@))
}

/// The release type in lower case (`album`, `single`, `ep`, ...), empty when absent.
pub fn album_type(a: &Album) -> (r: String)
    ensures
        r@ == spec_album_type(*a),
{
    let raw = first_text_exec(&a.album_type, &None, "");
    to_lowercase(raw.as_str())
}

/// `albumId`, else `album.id`.
pub open spec fn spec_track_album_id(t: Track) -> Option<i64> {
    match t.album_id {
        Some(id) => Some(id),
        None => t.album_nested_id,
    }
}

/// The album a track belongs to: `albumId`, else `album.id`.
pub fn track_album_id(t: &Track) -> (r: Option<i64>)
    ensures
        r == spec_track_album_id(*t),
{
    match t.album_id {
        Some(id) => Some(id),
        None => t.album_nested_id,
    }
}

/// `title`, else `trackTitle`, else `unknown`.
pub open spec fn spec_track_title(t: Track) -> Seq<char> {
    first_text(t.title, t.track_title, "unknown"@)
}

/// The track title: `title`, else `trackTitle`, else `unknown`.
pub fn track_title(t: &Track) -> (r: String)
    ensures
        r@ == spec_track_title(*t),
{
    first_text_exec(&t.title, &t.track_title, "unknown")
}

/// The integer reading of an optional raw value.
pub open spec fn raw_int(v: Option<RawJson>) -> Option<i64> {
    match v {
        Some(r) => r.as_i64,
        None => None,
    }
}

/// The artist's metadata profile: `metadataProfileId` when it is an integer, else
/// `metadataProfile.id` when that is one.
pub open spec fn spec_current_profile(a: Artist) -> Option<i64> {
    match raw_int(a.metadata_profile_id) {
        Some(id) => Some(id),
        None => raw_int(a.metadata_profile_nested_id),
    }
}

/// The metadata profile the artist currently has.
pub fn current_profile(a: &Artist) -> (r: Option<i64>)
    ensures
        r == spec_current_profile(*a),
{
    let direct = match &a.metadata_profile_id {
        Some(v) => v.as_i64,
        None => None,
    };
    match direct {
        Some(id) => Some(id),
        None => match &a.metadata_profile_nested_id {
            Some(v) => v.as_i64,
            None => None,
        },
    }
}

/// A base URL without trailing slashes, as the client stores it.
pub fn api_base(base_url: &str) -> (r: String)
    ensures
        r@ == trim_end_char(base_url@, '/'),
{
    let mut v = chars_of(base_url);
    trim_end_in_place(&mut v, '/');
    string_of(v.as_slice())
}

/// The URL a request for `path` goes to: an absolute `http` URL is used as it is,
/// anything else is appended to the base with exactly one `/` between them when
/// the path does not start with one.
pub open spec fn spec_request_url(base: Seq<char>, path: Seq<char>) -> Seq<char> {
    if has_prefix(path, "http"@) {
        path
    } else if has_prefix(path, "/"@) {
        base + path
    } else {
        base + "/"@ + path
    }
}

/// The URL of a Lidarr request.
pub fn request_url(base: &str, path: &str) -> (r: String)
    ensures
        r@ == spec_request_url(base@, path@),
{
    if starts_with(path, "http") {
        return path.to_owned();
    }
    let mut v = chars_of(base);
    if !starts_with(path, "/") {
        push_str(&mut v, "/");
    }
    push_str(&mut v, path);
    string_of(v.as_slice())
}

/// A path made of a fixed prefix and a decimal integer.
pub fn path_with_id(prefix: &str, id: i64) -> (r: String)
    ensures
        r@ == prefix@ + decimal(id as int),
{
    let mut v = chars_of(prefix);
    let d = decimal_i64(id);
    let mut i: usize = 0;
    while i < d.len()
        invariant
            i <= d@.len(),
            v@ == prefix@ + d@.take(i as int),
        decreases d@.len() - i,
    {
        v.push(d[i]);
        i = i + 1;
        assert(d@.take(i as int) == d@.take(i - 1 as int).push(d@[i - 1 as int]));
    }
    assert(d@.take(d@.len() as int) == d@);
    string_of(v.as_slice())
}

/// The request path listing the albums of an artist.
pub fn albums_for_artist_path(artist_id: i64) -> (r: String)
    ensures
        r@ == "/album?artistId="@ + decimal(artist_id as int),
{
    path_with_id("/album?artistId=", artist_id)
}

/// The request path listing the tracks of an artist.
pub fn tracks_for_artist_path(artist_id: i64) -> (r: String)
    ensures
        r@ == "/track?artistId="@ + decimal(artist_id as int),
{
    path_with_id("/track?artistId=", artist_id)
}

/// The request path listing the track files of an artist.
pub fn track_files_for_artist_path(artist_id: i64) -> (r: String)
    ensures
        r@ == "/trackfile?artistId="@ + decimal(artist_id as int),
{
    path_with_id("/trackfile?artistId=", artist_id)
}

/// The request path of one artist.
pub fn artist_path(artist_id: i64) -> (r: String)
    ensures
        r@ == "/artist/"@ + decimal(artist_id as int),
{
    path_with_id("/artist/", artist_id)
}

/// The request path of one album.
pub fn album_path(album_id: i64) -> (r: String)
    ensures
        r@ == "/album/"@ + decimal(album_id as int),
{
    path_with_id("/album/", album_id)
}

/// The manual-import listing of a folder: the folder percent-encoded, existing files
/// included and replaceable.
pub open spec fn spec_manual_import_path(folder: Seq<char>) -> Seq<char> {
    "/manualimport?folder="@ + percent_encode(encode_utf8(folder))
        + "&filterExistingFiles=false&replaceExistingFiles=true"@
}

/// The request path of Lidarr's manual-import listing for a folder.
pub fn manual_import_path(folder: &str) -> (r: String)
    ensures
        r@ == spec_manual_import_path(folder@),
{
    let mut v = chars_of("/manualimport?folder=");
    let enc = url_encode(folder);
    push_str(&mut v, enc.as_str());
    push_str(&mut v, "&filterExistingFiles=false&replaceExistingFiles=true");
    string_of(v.as_slice())
}

} // verus!
