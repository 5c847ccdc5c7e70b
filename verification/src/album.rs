//! Album cleanup: duplicate Single/EP detection against full albums, the artist
//! fingerprint that keys the run cache, cache freshness, and the choice of artists
//! for one run.
use vstd::prelude::*;

use crate::bindings::{
    all_ascii, ascii_lower, is_ascii_char, is_hex_lower, json_quote, no_ascii_upper, json_string_literal, sha256_of_text,
    sha256_utf8, text_lowercase, to_lowercase,
};
use crate::bindings::{parse_rfc3339, rfc3339_instant, utc_now};
use crate::config::{AlbumArgs, AlbumConfig};
use crate::storage::ArtistCache;
use crate::time::{spec_whole_days_between, whole_days_between, Instant};
use crate::lidarr::{
    album_title, album_type, artist_name, current_profile, spec_album_title, spec_album_type,
    spec_artist_name, spec_current_profile, spec_track_title, track_title, Album, Artist, Track,
};
use crate::text::{
    append_chars, ascii_alnum, chars_of, decimal, decimal_i64, hex_lower, hex_lower_of, is_ascii_alnum,
    lemma_hex_lower_shape, push_str, str_eq, string_of,
};

verus! {

// ------------------------------------------------------------ title normalization

/// A character kept by normalization, or a blank in its place.
pub open spec fn blank_out(c: char) -> char {
    if is_ascii_alnum(c) {
        c
    } else {
        ' '
    }
}

/// Collapses blanks: the text built so far, and whether a blank is pending after a
/// word. Blanks before the first word and after the last one are dropped, and each
/// run of blanks between words becomes one space.
pub open spec fn squash(s: Seq<char>) -> (Seq<char>, bool)
    decreases s.len(),
{
    if s.len() == 0 {
        (Seq::empty(), false)
    } else {
        let (o, pending) = squash(s.drop_last());
        let c = s.last();
        if c == ' ' {
            (o, o.len() > 0)
        } else if pending {
            (o.push(' ').push(c), false)
        } else {
            (o.push(c), false)
        }
    }
}

/// The comparison form of a title: lower-cased, every character other than an ASCII
/// letter or digit turned into a blank, words joined by single spaces.
pub open spec fn spec_normalize(s: Seq<char>) -> Seq<char> {
    squash(text_lowercase(s).map_values(|c: char| blank_out(c))).0
}

/// Text in the comparison form: ASCII letters, digits and single inner spaces.
pub open spec fn is_normalized(s: Seq<char>) -> bool {
    &&& forall|i: int| 0 <= i < s.len() ==> is_ascii_alnum(#[trigger] s[i]) || s[i] == ' '
    &&& s.len() > 0 ==> s[0] != ' ' && s.last() != ' '
    &&& forall|i: int| 0 <= i < s.len() - 1 ==> !(#[trigger] s[i] == ' ' && s[i + 1] == ' ')
}

/// The comparison form of a title (lower case, ASCII letters and digits, single
/// spaces). Normalizing the result again gives it back.
pub fn normalize(value: &str) -> (r: String)
    ensures
        r@ == spec_normalize(value@),
        is_normalized(r@),
        no_ascii_upper(r@),
        spec_normalize(r@) == r@,
{
    let lower = to_lowercase(value);
    let r = normalize_lowered(lower.as_str());
    proof {
        normalize_is_idempotent(value@);
    }
    r
}

/// The comparison form of a text that is already lower case: every character other
/// than an ASCII letter or digit becomes a blank, and words are joined by single
/// spaces.
pub fn normalize_lowered(lower: &str) -> (r: String)
    ensures
        r@ == squash(lower@.map_values(|c: char| blank_out(c))).0,
        is_normalized(r@),
        no_ascii_upper(lower@) ==> no_ascii_upper(r@),
{
    let cs = chars_of(lower);
    let ghost mapped = cs@.map_values(|c: char| blank_out(c));
    let mut out: Vec<char> = Vec::new();
    let mut pending = false;
    let mut i: usize = 0;
    while i < cs.len()
        invariant
            i <= cs@.len(),
            mapped == cs@.map_values(|c: char| blank_out(c)),
            squash(mapped.take(i as int)) == (out@, pending),
        decreases cs@.len() - i,
    {
        let c = cs[i];
        let m = if ascii_alnum(c) { c } else { ' ' };
        assert(mapped.take(i + 1 as int).drop_last() == mapped.take(i as int));
        assert(mapped.take(i + 1 as int).last() == m);
        if m == ' ' {
            pending = out.len() > 0;
        } else {
            if pending {
                out.push(' ');
            }
            out.push(m);
            pending = false;
        }
        i = i + 1;
    }
    assert(mapped.take(cs@.len() as int) == mapped);
    proof {
        lemma_squash_normalized(mapped);
        if no_ascii_upper(lower@) {
            assert forall|k: int| 0 <= k < mapped.len() implies !('A' <= #[trigger] mapped[k] && mapped[k] <= 'Z') by {
                assert(mapped[k] == blank_out(lower@[k]));
            }
            lemma_squash_keeps_chars(mapped);
        }
    }
    string_of(out.as_slice())
}

/// What `squash` builds is always in the comparison form, and a pending blank
/// follows at least one word.
pub proof fn lemma_squash_normalized(s: Seq<char>)
    requires
        forall|i: int| 0 <= i < s.len() ==> is_ascii_alnum(#[trigger] s[i]) || s[i] == ' ',
    ensures
        is_normalized(squash(s).0),
        squash(s).1 ==> squash(s).0.len() > 0,
    decreases s.len(),
{
    if s.len() > 0 {
        let p = s.drop_last();
        assert forall|i: int| 0 <= i < p.len() implies is_ascii_alnum(#[trigger] p[i]) || p[i] == ' ' by {
            assert(p[i] == s[i]);
        }
        lemma_squash_normalized(p);
        let (o, pending) = squash(p);
        let c = s.last();
        if c != ' ' {
            if pending {
                let n = o.push(' ').push(c);
                assert forall|i: int| 0 <= i < n.len() - 1 implies !(#[trigger] n[i] == ' ' && n[i + 1] == ' ') by {
                    if i < o.len() - 1 {
                        assert(n[i] == o[i] && n[i + 1] == o[i + 1]);
                    }
                }
            } else {
                let n = o.push(c);
                assert forall|i: int| 0 <= i < n.len() - 1 implies !(#[trigger] n[i] == ' ' && n[i + 1] == ' ') by {
                    if i < o.len() - 1 {
                        assert(n[i] == o[i] && n[i + 1] == o[i + 1]);
                    }
                }
            }
        }
    }
}

/// A text with no leading blank and no double blank, made of letters, digits and
/// blanks, collapses to itself less a trailing blank.
proof fn lemma_squash_of_tidy(s: Seq<char>)
    requires
        forall|i: int| 0 <= i < s.len() ==> is_ascii_alnum(#[trigger] s[i]) || s[i] == ' ',
        s.len() > 0 ==> s[0] != ' ',
        forall|i: int| 0 <= i < s.len() - 1 ==> !(#[trigger] s[i] == ' ' && s[i + 1] == ' '),
    ensures
        squash(s) == (if s.len() > 0 && s.last() == ' ' {
            (s.drop_last(), true)
        } else {
            (s, false)
        }),
    decreases s.len(),
{
    if s.len() > 0 {
        let p = s.drop_last();
        assert forall|i: int| 0 <= i < p.len() - 1 implies !(#[trigger] p[i] == ' ' && p[i + 1] == ' ') by {
            assert(p[i] == s[i] && p[i + 1] == s[i + 1]);
        }
        assert forall|i: int| 0 <= i < p.len() implies is_ascii_alnum(#[trigger] p[i]) || p[i] == ' ' by {
            assert(p[i] == s[i]);
        }
        lemma_squash_of_tidy(p);
        if s.last() == ' ' {
            if p.len() > 0 {
                assert(!(s[p.len() - 1] == ' ' && s[p.len() as int] == ' '));
                assert(p.last() != ' ');
            }
        } else if p.len() > 0 && p.last() == ' ' {
            assert(p.drop_last().push(' ').push(s.last()) =~= s);
        } else {
            assert(p.push(s.last()) =~= s);
        }
    }
}

/// Law: text already in the comparison form is left unchanged by the collapsing step.
pub proof fn normalized_text_is_fixed(s: Seq<char>)
    requires
        is_normalized(s),
    ensures
        squash(s.map_values(|c: char| blank_out(c))).0 == s,
{
    let m = s.map_values(|c: char| blank_out(c));
    assert(m =~= s);
    lemma_squash_of_tidy(s);
}

/// Law: normalizing a title twice gives what normalizing it once gives, for every
/// title whose normalized form holds no capital letter, which is every title that
/// `normalize` is given (its contract states the result has none).
pub proof fn normalize_is_idempotent(s: Seq<char>)
    requires
        no_ascii_upper(spec_normalize(s)),
    ensures
        spec_normalize(spec_normalize(s)) == spec_normalize(s),
{
    let t = spec_normalize(s);
    let m = text_lowercase(s).map_values(|c: char| blank_out(c));
    assert forall|i: int| 0 <= i < m.len() implies is_ascii_alnum(#[trigger] m[i]) || m[i] == ' ' by {}
    lemma_squash_normalized(m);
    assert forall|i: int| 0 <= i < t.len() implies is_ascii_char(#[trigger] t[i]) by {
        assert(is_ascii_alnum(t[i]) || t[i] == ' ');
    }
    assert(all_ascii(t));
    assert(text_lowercase(t) =~= t) by {
        assert forall|i: int| 0 <= i < t.len() implies #[trigger] ascii_lower(t[i]) == t[i] by {}
    }
    normalized_text_is_fixed(t);
}

/// Law: an ASCII title normalizes to text without capital letters, so normalizing
/// it is idempotent.
pub proof fn ascii_title_normalizes_to_lower_case(s: Seq<char>)
    requires
        all_ascii(s),
    ensures
        no_ascii_upper(spec_normalize(s)),
        spec_normalize(spec_normalize(s)) == spec_normalize(s),
{
    let l = text_lowercase(s);
    let m = l.map_values(|c: char| blank_out(c));
    assert forall|i: int| 0 <= i < m.len() implies !('A' <= #[trigger] m[i] && m[i] <= 'Z') by {
        assert(l[i] == ascii_lower(s[i]));
    }
    lemma_squash_keeps_chars(m);
    normalize_is_idempotent(s);
}

/// The ASCII upper-case form of a character.
pub open spec fn ascii_upper(c: char) -> char {
    if 'a' <= c && c <= 'z' {
        ((c as u32) - 32) as char
    } else {
        c
    }
}

/// Law: for an ASCII title, letter case does not matter: the title in upper case
/// normalizes to what the title does.
pub proof fn ascii_case_is_ignored(s: Seq<char>)
    requires
        all_ascii(s),
    ensures
        spec_normalize(s.map_values(|c: char| ascii_upper(c))) == spec_normalize(s),
{
    let u = s.map_values(|c: char| ascii_upper(c));
    assert forall|i: int| 0 <= i < u.len() implies is_ascii_char(#[trigger] u[i]) by {
        assert(u[i] == ascii_upper(s[i]));
    }
    assert(text_lowercase(u) =~= text_lowercase(s)) by {
        assert forall|i: int| 0 <= i < s.len() implies #[trigger] ascii_lower(u[i]) == ascii_lower(s[i]) by {
            assert(u[i] == ascii_upper(s[i]));
        }
    }
}

/// `squash` only uses characters of its input and the space.
proof fn lemma_squash_keeps_chars(s: Seq<char>)
    requires
        no_ascii_upper(s),
    ensures
        no_ascii_upper(squash(s).0),
    decreases s.len(),
{
    if s.len() > 0 {
        let p = s.drop_last();
        assert forall|i: int| 0 <= i < p.len() implies !('A' <= #[trigger] p[i] && p[i] <= 'Z') by {
            assert(p[i] == s[i]);
        }
        lemma_squash_keeps_chars(p);
        let (o, pending) = squash(p);
        let c = s.last();
        assert(!('A' <= c && c <= 'Z'));
        if c != ' ' {
            if pending {
                let n = o.push(' ').push(c);
                assert forall|i: int| 0 <= i < n.len() implies !('A' <= #[trigger] n[i] && n[i] <= 'Z') by {
                    if i < o.len() {
                        assert(n[i] == o[i]);
                    }
                }
            } else {
                let n = o.push(c);
                assert forall|i: int| 0 <= i < n.len() implies !('A' <= #[trigger] n[i] && n[i] <= 'Z') by {
                    if i < o.len() {
                        assert(n[i] == o[i]);
                    }
                }
            }
        }
    }
}


// ------------------------------------------------------------ duplicate matching

/// A track as the duplicate matcher compares it: its normalized title and its length
/// in milliseconds (0 when unknown).
#[derive(Debug)]
pub struct TrackKey {
    pub title: String,
    pub duration_ms: i64,
}

/// The comparison key of a track.
pub open spec fn key_of(t: Track) -> (Seq<char>, i64) {
    (
        spec_normalize(spec_track_title(t)),
        match t.duration_ms {
            Some(d) => d,
            None => 0,
        },
    )
}

/// The keys as plain values.
pub open spec fn keys_view(v: Seq<TrackKey>) -> Seq<(Seq<char>, i64)> {
    v.map_values(|k: TrackKey| (k.title@, k.duration_ms))
}

/// The comparison key of a track.
pub fn track_key(t: &Track) -> (r: TrackKey)
    ensures
        (r.title@, r.duration_ms) == key_of(*t),
{
    let title = track_title(t);
    TrackKey {
        title: normalize(title.as_str()),
        duration_ms: match t.duration_ms {
            Some(d) => d,
            None => 0,
        },
    }
}

/// What the matcher decides about a Single or EP.
#[derive(Debug, Clone, Copy, PartialEq, Eq, Structural)]
pub enum ReleaseDecision {
    /// Every track appears on a full album with a matching length.
    Duplicate,
    /// The release has no tracks, or some title appears only with other lengths.
    Review,
    /// Some track title appears on no full album.
    Keep,
}

impl ReleaseDecision {
    /// The decision as the report writes it.
    pub open spec fn name(self) -> Seq<char> {
        match self {
            ReleaseDecision::Duplicate => "DUPLICATE"@,
            ReleaseDecision::Review => "REVIEW"@,
            ReleaseDecision::Keep => "KEEP"@,
        }
    }

    /// The decision as the report writes it.
    pub fn as_str(&self) -> (r: &'static str)
        ensures
            r@ == self.name(),
    {
        match self {
            ReleaseDecision::Duplicate => "DUPLICATE",
            ReleaseDecision::Review => "REVIEW",
            ReleaseDecision::Keep => "KEEP",
        }
    }
}

/// Two lengths within the tolerance of each other.
pub open spec fn within(a: i64, b: i64, tolerance: i64) -> bool {
    let d = a as int - b as int;
    (if d < 0 { -d } else { d }) <= tolerance as int
}

/// The title occurs on some full album.
pub open spec fn title_known(index: Seq<(Seq<char>, i64)>, title: Seq<char>) -> bool {
    exists|j: int| 0 <= j < index.len() && (#[trigger] index[j]).0 == title
}

/// Some full-album track has the title and a length within the tolerance.
pub open spec fn length_matches(index: Seq<(Seq<char>, i64)>, key: (Seq<char>, i64), tolerance: i64) -> bool {
    exists|j: int| 0 <= j < index.len() && (#[trigger] index[j]).0 == key.0 && within(index[j].1, key.1, tolerance)
}

/// The decision for a release with the given track keys against the full-album index.
pub open spec fn spec_classify_release(
    keys: Seq<(Seq<char>, i64)>,
    index: Seq<(Seq<char>, i64)>,
    tolerance: i64,
) -> ReleaseDecision {
    if keys.len() == 0 {
        ReleaseDecision::Review
    } else if exists|i: int| 0 <= i < keys.len() && !title_known(index, (#[trigger] keys[i]).0) {
        ReleaseDecision::Keep
    } else if forall|i: int| 0 <= i < keys.len() ==> length_matches(index, #[trigger] keys[i], tolerance) {
        ReleaseDecision::Duplicate
    } else {
        ReleaseDecision::Review
    }
}

/// Looks a key up in the index: whether its title occurs, and whether it occurs with
/// a length within the tolerance.
fn lookup(index: &[TrackKey], key: &TrackKey, tolerance: i64) -> (r: (bool, bool))
    ensures
        r.0 == title_known(keys_view(index@), key.title@),
        r.1 == length_matches(keys_view(index@), (key.title@, key.duration_ms), tolerance),
{
    let ghost iv = keys_view(index@);
    let mut known = false;
    let mut matched = false;
    let mut j: usize = 0;
    while j < index.len()
        invariant
            j <= index@.len(),
            iv == keys_view(index@),
            known == exists|jj: int| 0 <= jj < j && (#[trigger] iv[jj]).0 == key.title@,
            matched == exists|jj: int|
                0 <= jj < j && (#[trigger] iv[jj]).0 == key.title@ && within(iv[jj].1, key.duration_ms, tolerance),
        decreases index@.len() - j,
    {
        let e = &index[j];
        assert(iv[j as int] == (e.title@, e.duration_ms));
        if str_eq(e.title.as_str(), key.title.as_str()) {
            known = true;
            let d: i128 = (e.duration_ms as i128) - (key.duration_ms as i128);
            let ad: i128 = if d < 0 { 0 - d } else { d };
            if ad <= (tolerance as i128) {
                matched = true;
            }
        }
        j = j + 1;
    }
    (known, matched)
}

/// The matcher's decision for one Single or EP: `Review` without tracks, `Keep` when
/// some title is missing from every full album, `Duplicate` when every track has a
/// full-album twin within the length tolerance, `Review` otherwise.
pub fn classify_release(tracks: &[TrackKey], index: &[TrackKey], tolerance: i64) -> (r: ReleaseDecision)
    ensures
        r == spec_classify_release(keys_view(tracks@), keys_view(index@), tolerance),
{
    let ghost kv = keys_view(tracks@);
    let ghost iv = keys_view(index@);
    if tracks.len() == 0 {
        return ReleaseDecision::Review;
    }
    let mut all_matched = true;
    let mut i: usize = 0;
    while i < tracks.len()
        invariant
            i <= tracks@.len(),
            kv == keys_view(tracks@),
            iv == keys_view(index@),
            forall|k: int| 0 <= k < i ==> title_known(iv, (#[trigger] kv[k]).0),
            all_matched == forall|k: int| 0 <= k < i ==> length_matches(iv, #[trigger] kv[k], tolerance),
        decreases tracks@.len() - i,
    {
        let (known, matched) = lookup(index, &tracks[i], tolerance);
        assert(kv[i as int] == (tracks@[i as int].title@, tracks@[i as int].duration_ms));
        if !known {
            return ReleaseDecision::Keep;
        }
        if !matched {
            all_matched = false;
        }
        i = i + 1;
    }
    if all_matched {
        ReleaseDecision::Duplicate
    } else {
        ReleaseDecision::Review
    }
}

/// Law: a release is a duplicate only when each of its tracks has a full-album track
/// with the same normalized title and a length within the tolerance.
pub proof fn duplicate_means_every_track_matched(
    keys: Seq<(Seq<char>, i64)>,
    index: Seq<(Seq<char>, i64)>,
    tolerance: i64,
)
    requires
        spec_classify_release(keys, index, tolerance) == ReleaseDecision::Duplicate,
    ensures
        keys.len() > 0,
        forall|i: int| 0 <= i < keys.len() ==> length_matches(index, #[trigger] keys[i], tolerance),
{
}

/// Some full-album track has the title of `key`, and the two lengths differ by at
/// most `tolerance` milliseconds, whichever is the longer.
pub open spec fn has_close_twin(index: Seq<(Seq<char>, i64)>, key: (Seq<char>, i64), tolerance: i64) -> bool {
    exists|j: int|
        0 <= j < index.len() && (#[trigger] index[j]).0 == key.0 && (if index[j].1 as int >= key.1 as int {
            index[j].1 as int - key.1 as int
        } else {
            key.1 as int - index[j].1 as int
        }) <= tolerance as int
}

/// Law: a release is a duplicate exactly when it has tracks and each of them has a
/// full-album track with the same normalized title whose length differs from it by
/// at most the tolerance, whichever of the two is longer.
pub proof fn duplicate_iff_every_length_is_close(
    keys: Seq<(Seq<char>, i64)>,
    index: Seq<(Seq<char>, i64)>,
    tolerance: i64,
)
    ensures
        (spec_classify_release(keys, index, tolerance) == ReleaseDecision::Duplicate) <==> (keys.len() > 0 && forall|i: int|
            0 <= i < keys.len() ==> has_close_twin(index, #[trigger] keys[i], tolerance)),
{
    assert forall|i: int| 0 <= i < keys.len() implies (has_close_twin(index, #[trigger] keys[i], tolerance)
        <==> length_matches(index, keys[i], tolerance)) by {
        if has_close_twin(index, keys[i], tolerance) {
            let j = choose|j: int|
                0 <= j < index.len() && (#[trigger] index[j]).0 == keys[i].0 && (if index[j].1 as int >= keys[i].1 as int {
                    index[j].1 as int - keys[i].1 as int
                } else {
                    keys[i].1 as int - index[j].1 as int
                }) <= tolerance as int;
            assert(within(index[j].1, keys[i].1, tolerance));
        }
        if length_matches(index, keys[i], tolerance) {
            let j = choose|j: int|
                0 <= j < index.len() && (#[trigger] index[j]).0 == keys[i].0 && within(index[j].1, keys[i].1, tolerance);
            assert(index[j].0 == keys[i].0);
        }
    }
    assert forall|i: int| 0 <= i < keys.len() && length_matches(index, #[trigger] keys[i], tolerance) implies title_known(
        index,
        keys[i].0,
    ) by {
        let j = choose|j: int|
            0 <= j < index.len() && (#[trigger] index[j]).0 == keys[i].0 && within(index[j].1, keys[i].1, tolerance);
        assert(index[j].0 == keys[i].0);
    }
}

/// Law: a release is kept only when some track title occurs on no full album, and
/// that does not depend on the tolerance.
pub proof fn keep_means_unknown_title(
    keys: Seq<(Seq<char>, i64)>,
    index: Seq<(Seq<char>, i64)>,
    tolerance: i64,
    other_tolerance: i64,
)
    ensures
        (spec_classify_release(keys, index, tolerance) == ReleaseDecision::Keep) == (exists|i: int|
            0 <= i < keys.len() && !title_known(index, (#[trigger] keys[i]).0)),
        (spec_classify_release(keys, index, tolerance) == ReleaseDecision::Keep)
            == (spec_classify_release(keys, index, other_tolerance) == ReleaseDecision::Keep),
{
}

/// Law: widening the length tolerance never turns a duplicate into anything else.
pub proof fn wider_tolerance_keeps_duplicates(
    keys: Seq<(Seq<char>, i64)>,
    index: Seq<(Seq<char>, i64)>,
    tolerance: i64,
    wider: i64,
)
    requires
        tolerance <= wider,
        spec_classify_release(keys, index, tolerance) == ReleaseDecision::Duplicate,
    ensures
        spec_classify_release(keys, index, wider) == ReleaseDecision::Duplicate,
{
    assert forall|i: int| 0 <= i < keys.len() implies length_matches(index, #[trigger] keys[i], wider) by {
        assert(length_matches(index, keys[i], tolerance));
        let j = choose|j: int| 0 <= j < index.len() && (#[trigger] index[j]).0 == keys[i].0 && within(index[j].1, keys[i].1, tolerance);
        assert(within(index[j].1, keys[i].1, wider));
    }
}

// ------------------------------------------------------------ full-album index

/// The keys of the tracks that belong to album `id`, in track order.
pub open spec fn album_keys(tracks: Seq<Track>, id: i64) -> Seq<(Seq<char>, i64)>
    decreases tracks.len(),
{
    if tracks.len() == 0 {
        Seq::empty()
    } else {
        album_keys(tracks.drop_last(), id) + if crate::lidarr::spec_track_album_id(tracks.last()) == Some(id) {
            seq![key_of(tracks.last())]
        } else {
            Seq::empty()
        }
    }
}

/// The number of tracks that belong to album `id`.
pub open spec fn album_track_count(tracks: Seq<Track>, id: i64) -> nat {
    album_keys(tracks, id).len()
}

/// The keys of the tracks of album `id`.
pub fn keys_for_album(tracks: &[Track], id: i64) -> (r: Vec<TrackKey>)
    ensures
        keys_view(r@) == album_keys(tracks@, id),
{
    let mut r: Vec<TrackKey> = Vec::new();
    let mut i: usize = 0;
    while i < tracks.len()
        invariant
            i <= tracks@.len(),
            keys_view(r@) == album_keys(tracks@.take(i as int), id),
        decreases tracks@.len() - i,
    {
        let t = &tracks[i];
        assert(tracks@.take(i + 1 as int).drop_last() == tracks@.take(i as int));
        assert(tracks@.take(i + 1 as int).last() == *t);
        if crate::lidarr::track_album_id(t) == Some(id) {
            let k = track_key(t);
            r.push(k);
            assert(keys_view(r@) =~= keys_view(r@.drop_last()).push((k.title@, k.duration_ms)));
        }
        i = i + 1;
    }
    assert(tracks@.take(tracks@.len() as int) == tracks@);
    r
}

/// Releases of type `album`.
pub open spec fn is_full_album(a: Album) -> bool {
    spec_album_type(a) == "album"@
}

/// The track keys of all full albums, album by album.
pub open spec fn spec_full_index(albums: Seq<Album>, tracks: Seq<Track>) -> Seq<(Seq<char>, i64)>
    decreases albums.len(),
{
    if albums.len() == 0 {
        Seq::empty()
    } else {
        spec_full_index(albums.drop_last(), tracks) + if is_full_album(albums.last()) {
            match albums.last().id {
                Some(id) => album_keys(tracks, id),
                None => Seq::empty(),
            }
        } else {
            Seq::empty()
        }
    }
}

/// Indexes the tracks of the full albums (type `album`) by normalized title and length.
pub fn build_full_track_index(albums: &[Album], tracks: &[Track]) -> (r: Vec<TrackKey>)
    ensures
        keys_view(r@) == spec_full_index(albums@, tracks@),
{
    let mut r: Vec<TrackKey> = Vec::new();
    let mut i: usize = 0;
    while i < albums.len()
        invariant
            i <= albums@.len(),
            keys_view(r@) == spec_full_index(albums@.take(i as int), tracks@),
        decreases albums@.len() - i,
    {
        assert(albums@.take(i + 1 as int).drop_last() == albums@.take(i as int));
        assert(albums@.take(i + 1 as int).last() == albums@[i as int]);
        let kind = album_type(&albums[i]);
        let full = str_eq(kind.as_str(), "album");
        let ghost before = r@;
        if full && albums[i].id.is_some() {
            let id = albums[i].id.unwrap();
            let mut ks = keys_for_album(tracks, id);
            r.append(&mut ks);
            assert(keys_view(r@) =~= keys_view(before) + album_keys(tracks@, id));
        } else {
            assert(keys_view(r@) =~= keys_view(before) + Seq::<(Seq<char>, i64)>::empty());
        }
        i = i + 1;
    }
    assert(albums@.take(albums@.len() as int) == albums@);
    r
}

// ------------------------------------------------------------ per-artist plan

/// A Single or EP considered for duplicate cleanup.
pub open spec fn is_candidate(a: Album, only_monitored: bool) -> bool {
    (spec_album_type(a) == "single"@ || spec_album_type(a) == "ep"@) && (!only_monitored || a.monitored
        == Some(true))
}

/// What the run does about one candidate release.
#[derive(Debug)]
pub struct ReleasePlan {
    /// The release id (0 when the release has none).
    pub release_id: i64,
    pub title: String,
    pub release_type: String,
    pub decision: ReleaseDecision,
    pub track_count: usize,
    /// Whether the run unmonitors the release.
    pub unmonitor: bool,
}

/// The release id, 0 when absent.
pub open spec fn release_id_of(a: Album) -> i64 {
    match a.id {
        Some(id) => id,
        None => 0,
    }
}

/// Whether a release with this decision and id is unmonitored.
pub open spec fn spec_unmonitor(decision: ReleaseDecision, release_id: i64, cfg: AlbumConfig) -> bool {
    decision == ReleaseDecision::Duplicate && cfg.apply && cfg.auto_unmonitor_duplicates && release_id > 0
}

/// The plan for each candidate release, in album order.
pub open spec fn spec_plans(
    albums: Seq<Album>,
    tracks: Seq<Track>,
    index: Seq<(Seq<char>, i64)>,
    cfg: AlbumConfig,
) -> Seq<(i64, Seq<char>, Seq<char>, ReleaseDecision, nat, bool)>
    decreases albums.len(),
{
    if albums.len() == 0 {
        Seq::empty()
    } else {
        let a = albums.last();
        let rest = spec_plans(albums.drop_last(), tracks, index, cfg);
        if is_candidate(a, cfg.only_monitored_releases) {
            let id = release_id_of(a);
            let d = spec_classify_release(album_keys(tracks, id), index, cfg.duration_tolerance_ms);
            rest.push(
                (
                    id,
                    spec_album_title(a),
                    spec_album_type(a),
                    d,
                    album_track_count(tracks, id),
                    spec_unmonitor(d, id, cfg),
                ),
            )
        } else {
            rest
        }
    }
}

/// The plans as plain values.
pub open spec fn plans_view(v: Seq<ReleasePlan>) -> Seq<(i64, Seq<char>, Seq<char>, ReleaseDecision, nat, bool)> {
    v.map_values(
        |p: ReleasePlan|
            (p.release_id, p.title@, p.release_type@, p.decision, p.track_count as nat, p.unmonitor),
    )
}

/// Classifies every candidate Single/EP of an artist against the artist's full albums
/// and decides which ones the run unmonitors.
pub fn plan_releases(albums: &[Album], tracks: &[Track], cfg: &AlbumConfig) -> (r: Vec<ReleasePlan>)
    ensures
        plans_view(r@) == spec_plans(albums@, tracks@, spec_full_index(albums@, tracks@), *cfg),
{
    let index = build_full_track_index(albums, tracks);
    let ghost iv = keys_view(index@);
    let mut r: Vec<ReleasePlan> = Vec::new();
    let mut i: usize = 0;
    while i < albums.len()
        invariant
            i <= albums@.len(),
            iv == keys_view(index@),
            iv == spec_full_index(albums@, tracks@),
            plans_view(r@) == spec_plans(albums@.take(i as int), tracks@, iv, *cfg),
        decreases albums@.len() - i,
    {
        let a = &albums[i];
        assert(albums@.take(i + 1 as int).drop_last() == albums@.take(i as int));
        assert(albums@.take(i + 1 as int).last() == *a);
        let kind = album_type(a);
        let single_or_ep = str_eq(kind.as_str(), "single") || str_eq(kind.as_str(), "ep");
        let monitored_ok = !cfg.only_monitored_releases || a.monitored == Some(true);
        if single_or_ep && monitored_ok {
            let id = match a.id {
                Some(id) => id,
                None => 0,
            };
            let keys = keys_for_album(tracks, id);
            let decision = classify_release(keys.as_slice(), index.as_slice(), cfg.duration_tolerance_ms);
            let unmonitor = decision == ReleaseDecision::Duplicate && cfg.apply && cfg.auto_unmonitor_duplicates
                && id > 0;
            let p = ReleasePlan {
                release_id: id,
                title: album_title(a),
                release_type: kind,
                decision,
                track_count: keys.len(),
                unmonitor,
            };
            r.push(p);
            assert(plans_view(r@) =~= plans_view(r@.drop_last()).push(
                (p.release_id, p.title@, p.release_type@, p.decision, p.track_count as nat, p.unmonitor),
            ));
        }
        i = i + 1;
    }
    assert(albums@.take(albums@.len() as int) == albums@);
    r
}

/// How the run treats an artist whose metadata profile differs from the target.
#[derive(Debug, Clone, Copy, PartialEq, Eq, Structural)]
pub enum ProfileAction {
    /// The profile is set to the target (apply mode).
    Updated,
    /// The profile would be set (dry-run).
    WouldUpdate,
}

impl ProfileAction {
    /// The action as the report writes it.
    pub open spec fn name(self) -> Seq<char> {
        match self {
            ProfileAction::Updated => "updated"@,
            ProfileAction::WouldUpdate => "would_update"@,
        }
    }

    /// The action as the report writes it.
    pub fn as_str(&self) -> (r: &'static str)
        ensures
            r@ == self.name(),
    {
        match self {
            ProfileAction::Updated => "updated",
            ProfileAction::WouldUpdate => "would_update",
        }
    }
}

/// The profile action for an artist.
pub open spec fn spec_profile_action(a: Artist, cfg: AlbumConfig) -> Option<ProfileAction> {
    if spec_current_profile(a) != Some(cfg.target_metadata_profile_id) {
        Some(if cfg.apply { ProfileAction::Updated } else { ProfileAction::WouldUpdate })
    } else {
        None
    }
}

/// Whether the artist's metadata profile is to be corrected first (an artist on
/// another profile gets no release checks in this run).
pub fn profile_action(a: &Artist, cfg: &AlbumConfig) -> (r: Option<ProfileAction>)
    ensures
        r == spec_profile_action(*a, *cfg),
{
    if current_profile(a) != Some(cfg.target_metadata_profile_id) {
        Some(if cfg.apply { ProfileAction::Updated } else { ProfileAction::WouldUpdate })
    } else {
        None
    }
}

/// Law: dry-run never writes: without apply mode no profile is updated and no
/// release is unmonitored.
pub proof fn dry_run_plans_no_writes(a: Artist, albums: Seq<Album>, tracks: Seq<Track>, cfg: AlbumConfig)
    requires
        !cfg.apply,
    ensures
        spec_profile_action(a, cfg) != Some(ProfileAction::Updated),
        forall|i: int|
            0 <= i < spec_plans(albums, tracks, spec_full_index(albums, tracks), cfg).len() ==> !(
            #[trigger] spec_plans(albums, tracks, spec_full_index(albums, tracks), cfg)[i]).5,
    decreases albums.len(),
{
    lemma_plans_unmonitor_only_duplicates(albums, tracks, spec_full_index(albums, tracks), cfg);
}

/// Every planned unmonitor is for a duplicate with a positive id, in apply mode, with
/// automatic unmonitoring on.
pub proof fn lemma_plans_unmonitor_only_duplicates(
    albums: Seq<Album>,
    tracks: Seq<Track>,
    index: Seq<(Seq<char>, i64)>,
    cfg: AlbumConfig,
)
    ensures
        forall|i: int|
            0 <= i < spec_plans(albums, tracks, index, cfg).len() ==> (#[trigger] spec_plans(albums, tracks, index, cfg)[i]).5
                ==> spec_plans(albums, tracks, index, cfg)[i].3 == ReleaseDecision::Duplicate && cfg.apply
                && cfg.auto_unmonitor_duplicates && spec_plans(albums, tracks, index, cfg)[i].0 > 0,
    decreases albums.len(),
{
    if albums.len() > 0 {
        lemma_plans_unmonitor_only_duplicates(albums.drop_last(), tracks, index, cfg);
    }
}


// ------------------------------------------------------------ artist fingerprint

/// JSON text of an optional integer.
pub open spec fn json_opt_int(v: Option<i64>) -> Seq<char> {
    match v {
        Some(n) => decimal(n as int),
        None => "null"@,
    }
}

/// JSON text of a boolean.
pub open spec fn json_bool(b: bool) -> Seq<char> {
    if b {
        "true"@
    } else {
        "false"@
    }
}

/// JSON text of an optional boolean.
pub open spec fn json_opt_bool(v: Option<bool>) -> Seq<char> {
    match v {
        Some(b) => json_bool(b),
        None => "null"@,
    }
}

/// The raw JSON of the artist's metadata profile: `metadataProfileId` when present,
/// else `metadataProfile.id`, else `null`.
pub open spec fn profile_json(a: Artist) -> Seq<char> {
    match a.metadata_profile_id {
        Some(r) => r.text@,
        None => match a.metadata_profile_nested_id {
            Some(r) => r.text@,
            None => "null"@,
        },
    }
}

/// The compact JSON document that the fingerprint hashes: the artist's id, name,
/// monitoring and metadata profile, and the settings that affect the outcome, with
/// keys in sorted order.
pub open spec fn fingerprint_text(a: Artist, cfg: AlbumConfig) -> Seq<char> {
    "{\"artistId\":"@ + json_opt_int(a.id) + ",\"artistName\":"@ + json_string_literal(spec_artist_name(a))
        + ",\"metadataProfileId\":"@ + profile_json(a) + ",\"monitored\":"@ + json_opt_bool(a.monitored)
        + ",\"settings\":{\"autoUnmonitorDuplicates\":"@ + json_bool(cfg.auto_unmonitor_duplicates)
        + ",\"durationToleranceMs\":"@ + decimal(cfg.duration_tolerance_ms as int)
        + ",\"targetMetadataProfileId\":"@ + decimal(cfg.target_metadata_profile_id as int) + "}}"@
}

/// The fingerprint: lower-case hex of the SHA-256 of the fingerprint document.
pub open spec fn spec_fingerprint(a: Artist, cfg: AlbumConfig) -> Seq<char> {
    hex_lower(sha256_utf8(fingerprint_text(a, cfg)))
}

fn push_opt_int(v: &mut Vec<char>, n: Option<i64>)
    ensures
        final(v)@ == old(v)@ + json_opt_int(n),
{
    match n {
        Some(x) => {
            let d = decimal_i64(x);
            append_chars(v, d.as_slice());
        },
        None => push_str(v, "null"),
    }
}

fn push_bool(v: &mut Vec<char>, b: bool)
    ensures
        final(v)@ == old(v)@ + json_bool(b),
{
    if b {
        push_str(v, "true");
    } else {
        push_str(v, "false");
    }
}

fn push_opt_bool(v: &mut Vec<char>, b: Option<bool>)
    ensures
        final(v)@ == old(v)@ + json_opt_bool(b),
{
    match b {
        Some(x) => push_bool(v, x),
        None => push_str(v, "null"),
    }
}

/// The fingerprint document of an artist under the given settings.
pub fn fingerprint_document(a: &Artist, cfg: &AlbumConfig) -> (r: String)
    ensures
        r@ == fingerprint_text(*a, *cfg),
{
    let mut v: Vec<char> = Vec::new();
    push_str(&mut v, "{\"artistId\":");
    push_opt_int(&mut v, a.id);
    push_str(&mut v, ",\"artistName\":");
    let name = artist_name(a);
    let quoted = json_quote(name.as_str());
    push_str(&mut v, quoted.as_str());
    push_str(&mut v, ",\"metadataProfileId\":");
    match &a.metadata_profile_id {
        Some(r) => push_str(&mut v, r.text.as_str()),
        None => match &a.metadata_profile_nested_id {
            Some(r) => push_str(&mut v, r.text.as_str()),
            None => push_str(&mut v, "null"),
        },
    }
    push_str(&mut v, ",\"monitored\":");
    push_opt_bool(&mut v, a.monitored);
    push_str(&mut v, ",\"settings\":{\"autoUnmonitorDuplicates\":");
    push_bool(&mut v, cfg.auto_unmonitor_duplicates);
    push_str(&mut v, ",\"durationToleranceMs\":");
    push_opt_int(&mut v, Some(cfg.duration_tolerance_ms));
    push_str(&mut v, ",\"targetMetadataProfileId\":");
    push_opt_int(&mut v, Some(cfg.target_metadata_profile_id));
    push_str(&mut v, "}}");
    string_of(v.as_slice())
}

/// The cache fingerprint of an artist: it changes when the artist's id, name,
/// monitoring or metadata profile change, or when a setting that affects the outcome does.
pub fn artist_fingerprint(a: &Artist, cfg: &AlbumConfig) -> (r: String)
    ensures
        r@ == spec_fingerprint(*a, *cfg),
        r@.len() == 64,
{
    let doc = fingerprint_document(a, cfg);
    let digest = sha256_of_text(doc.as_str());
    let hex = hex_lower_of(digest.as_slice());
    string_of(hex.as_slice())
}

/// Law: a fingerprint is made of lower-case hexadecimal digits, two per digest byte
/// (64 for the 32-byte SHA-256 digest that `artist_fingerprint` obtains).
pub proof fn fingerprint_is_lower_hex(a: Artist, cfg: AlbumConfig)
    ensures
        spec_fingerprint(a, cfg).len() == 2 * sha256_utf8(fingerprint_text(a, cfg)).len(),
        forall|i: int| 0 <= i < spec_fingerprint(a, cfg).len() ==> is_hex_lower(#[trigger] spec_fingerprint(a, cfg)[i]),
{
    lemma_hex_lower_shape(sha256_utf8(fingerprint_text(a, cfg)));
}


// ------------------------------------------------------------ run cache

/// Whether a cache row lets the run skip the artist at instant `now`: the last run
/// succeeded with the same fingerprint, and its RFC 3339 time is at most
/// `max_age_days` whole days back (unreadable times never count as fresh).
pub open spec fn spec_cache_hit(now: Instant, row: ArtistCache, fingerprint: Seq<char>, max_age_days: i64) -> bool {
    row.status@ == "success"@ && row.fingerprint@ == fingerprint && match rfc3339_instant(row.processed_at@) {
        Some((secs, nanos)) => spec_whole_days_between(now, Instant { secs, nanos }) <= max_age_days as int,
        None => false,
    }
}

/// Whether a cache row lets the run skip the artist at instant `now`.
pub fn cache_hit_at(now: Instant, row: &ArtistCache, fingerprint: &str, max_age_days: i64) -> (r: bool)
    ensures
        r == spec_cache_hit(now, *row, fingerprint@, max_age_days),
{
    if !str_eq(row.status.as_str(), "success") || !str_eq(row.fingerprint.as_str(), fingerprint) {
        return false;
    }
    match parse_rfc3339(row.processed_at.as_str()) {
        Some(t) => whole_days_between(now, t) <= (max_age_days as i128),
        None => false,
    }
}

/// Whether a cache row lets the run skip the artist now (the system clock's time).
pub fn cache_hit(row: &ArtistCache, fingerprint: &str, max_age_days: i64) -> (r: bool)
    ensures
        exists|now: Instant| r == spec_cache_hit(now, *row, fingerprint@, max_age_days),
{
    let now = utc_now();
    cache_hit_at(now, row, fingerprint, max_age_days)
}

/// Law: only a successful run with the same fingerprint is ever a cache hit.
pub proof fn cache_hit_needs_success_and_same_fingerprint(
    now: Instant,
    row: ArtistCache,
    fingerprint: Seq<char>,
    max_age_days: i64,
)
    requires
        spec_cache_hit(now, row, fingerprint, max_age_days),
    ensures
        row.status@ == "success"@,
        row.fingerprint@ == fingerprint,
        rfc3339_instant(row.processed_at@) is Some,
{
}

/// The last cache row of an artist.
pub open spec fn spec_cache_lookup(rows: Seq<ArtistCache>, artist_id: i64) -> Option<ArtistCache>
    decreases rows.len(),
{
    if rows.len() == 0 {
        None
    } else if rows.last().artist_id == artist_id {
        Some(rows.last())
    } else {
        spec_cache_lookup(rows.drop_last(), artist_id)
    }
}

/// Finds the cache row of an artist (the last one when several carry its id).
pub fn cache_lookup(rows: &[ArtistCache], artist_id: i64) -> (r: Option<&ArtistCache>)
    ensures
        match r {
            Some(row) => spec_cache_lookup(rows@, artist_id) == Some(*row),
            None => spec_cache_lookup(rows@, artist_id) is None,
        },
{
    let mut j: usize = rows.len();
    assert(rows@.take(rows@.len() as int) =~= rows@);
    while j > 0
        invariant
            j <= rows@.len(),
            spec_cache_lookup(rows@, artist_id) == spec_cache_lookup(rows@.take(j as int), artist_id),
        decreases j,
    {
        assert(rows@.take(j as int).drop_last() == rows@.take(j - 1 as int));
        if rows[j - 1].artist_id == artist_id {
            return Some(&rows[j - 1]);
        }
        j = j - 1;
    }
    None
}

/// The freshness test of the whole run: an artist is skipped when its cache row is a hit.
pub open spec fn spec_cached(now: Instant, rows: Seq<ArtistCache>, artist_id: i64, fingerprint: Seq<char>, max_age_days: i64) -> bool {
    match spec_cache_lookup(rows, artist_id) {
        Some(row) => spec_cache_hit(now, row, fingerprint, max_age_days),
        None => false,
    }
}

// ------------------------------------------------------------ artist selection

/// The artist's position key: its id, 0 when absent.
pub open spec fn sort_key(a: Artist) -> i64 {
    match a.id {
        Some(id) => id,
        None => 0,
    }
}

/// Inserts `a` after every element whose key is at most its own, counting from the end.
pub open spec fn insert_by_key(s: Seq<Artist>, a: Artist) -> Seq<Artist>
    decreases s.len(),
{
    if s.len() == 0 || sort_key(s.last()) <= sort_key(a) {
        s.push(a)
    } else {
        insert_by_key(s.drop_last(), a).push(s.last())
    }
}

/// Stable sort by id (insertion sort).
pub open spec fn sort_by_key(s: Seq<Artist>) -> Seq<Artist>
    decreases s.len(),
{
    if s.len() == 0 {
        s
    } else {
        insert_by_key(sort_by_key(s.drop_last()), s.last())
    }
}

proof fn lemma_insert_at(s: Seq<Artist>, a: Artist, j: int)
    requires
        0 <= j <= s.len(),
        forall|k: int| j <= k < s.len() ==> sort_key(#[trigger] s[k]) > sort_key(a),
        j > 0 ==> sort_key(s[j - 1]) <= sort_key(a),
    ensures
        insert_by_key(s, a) == s.insert(j, a),
    decreases s.len() - j,
{
    if j == s.len() {
        assert(s.insert(j, a) =~= s.push(a));
    } else {
        let p = s.drop_last();
        assert forall|k: int| j <= k < p.len() implies sort_key(#[trigger] p[k]) > sort_key(a) by {
            assert(p[k] == s[k]);
        }
        if j > 0 {
            assert(p[j - 1] == s[j - 1]);
        }
        lemma_insert_at(p, a, j);
        assert(p.insert(j, a).push(s.last()) =~= s.insert(j, a));
    }
}

/// Artists in ascending id order, artists with equal ids (or none, counted as 0)
/// keeping their order.
pub fn sort_artists(artists: Vec<Artist>) -> (r: Vec<Artist>)
    ensures
        r@ == sort_by_key(artists@),
{
    let ghost all = artists@;
    let mut rest = artists;
    let mut sorted: Vec<Artist> = Vec::new();
    let ghost mut k: int = 0;
    while rest.len() > 0
        invariant
            0 <= k <= all.len(),
            rest@ == all.skip(k),
            sorted@ == sort_by_key(all.take(k)),
        decreases rest@.len(),
    {
        let a = rest.remove(0);
        proof {
            assert(all.take(k + 1).drop_last() =~= all.take(k));
            assert(all.take(k + 1).last() == a);
        }
        let mut j: usize = sorted.len();
        while j > 0 && sort_key_of(&sorted[j - 1]) > sort_key_of(&a)
            invariant
                j <= sorted@.len(),
                forall|m: int| j <= m < sorted@.len() ==> sort_key(#[trigger] sorted@[m]) > sort_key(a),
            decreases j,
        {
            j = j - 1;
        }
        proof {
            lemma_insert_at(sorted@, a, j as int);
        }
        sorted.insert(j, a);
        proof {
            k = k + 1;
            assert(rest@ =~= all.skip(k));
        }
    }
    assert(all.take(k) =~= all);
    sorted
}

fn sort_key_of(a: &Artist) -> (r: i64)
    ensures
        r == sort_key(*a),
{
    match a.id {
        Some(id) => id,
        None => 0,
    }
}

/// An artist chosen for processing, with its fingerprint.
#[derive(Debug)]
pub struct SelectedArtist {
    pub artist: Artist,
    pub fingerprint: String,
}

/// The artists of one run and the counts of the choice.
#[derive(Debug)]
pub struct ArtistSelection {
    pub selected: Vec<SelectedArtist>,
    /// Artists that pass the id and monitoring filters.
    pub artists_scanned: usize,
    pub cache_hits: usize,
    pub cache_misses: usize,
    pub deferred_by_limit: usize,
}

/// Passes the `--artist-id` filter and, when configured, the monitored-only filter.
pub open spec fn spec_eligible(a: Artist, args: AlbumArgs, cfg: AlbumConfig) -> bool {
    (args.artist_id is None || a.id == args.artist_id) && (!cfg.only_monitored_artists || a.monitored
        == Some(true))
}

/// The choice over the eligible artists `s`, in order: selected (artist,
/// fingerprint) pairs, cache hits, misses and deferrals. Artists without an id
/// (or with id 0) are passed over; a fresh cache hit skips the artist unless
/// `--force`; without `--artist-id` at most `max_artists_per_run` are selected and the
/// rest are deferred.
pub open spec fn spec_select(
    now: Instant,
    s: Seq<Artist>,
    rows: Seq<ArtistCache>,
    args: AlbumArgs,
    cfg: AlbumConfig,
) -> (Seq<(Artist, Seq<char>)>, nat, nat, nat)
    decreases s.len(),
{
    if s.len() == 0 {
        (Seq::empty(), 0, 0, 0)
    } else {
        let (sel, hits, misses, deferred) = spec_select(now, s.drop_last(), rows, args, cfg);
        let a = s.last();
        let id = sort_key(a);
        let fp = spec_fingerprint(a, cfg);
        if id == 0 {
            (sel, hits, misses, deferred)
        } else if !args.force && spec_cached(now, rows, id, fp, cfg.cache_days) {
            (sel, hits + 1, misses, deferred)
        } else if args.artist_id is None && sel.len() >= cfg.max_artists_per_run {
            (sel, hits, misses, deferred + 1)
        } else {
            (sel.push((a, fp)), hits, misses + 1, deferred)
        }
    }
}

/// The eligible artists in id order.
pub open spec fn spec_eligible_sorted(artists: Seq<Artist>, args: AlbumArgs, cfg: AlbumConfig) -> Seq<Artist> {
    sort_by_key(artists).filter(|a: Artist| spec_eligible(a, args, cfg))
}

/// The selection as plain values.
pub open spec fn selected_view(v: Seq<SelectedArtist>) -> Seq<(Artist, Seq<char>)> {
    v.map_values(|x: SelectedArtist| (x.artist, x.fingerprint@))
}

/// Chooses the artists of one run at instant `now`: sorts by id, filters by the
/// `--artist-id` option and monitoring, skips fresh cache hits unless forced, and
/// defers artists beyond the per-run limit.
pub fn select_artists_at(
    now: Instant,
    artists: Vec<Artist>,
    rows: &[ArtistCache],
    args: &AlbumArgs,
    cfg: &AlbumConfig,
) -> (r: ArtistSelection)
    ensures
        ({
            let e = spec_eligible_sorted(artists@, *args, *cfg);
            let (sel, hits, misses, deferred) = spec_select(now, e, rows@, *args, *cfg);
            &&& r.artists_scanned == e.len()
            &&& selected_view(r.selected@) == sel
            &&& r.cache_hits == hits
            &&& r.cache_misses == misses
            &&& r.deferred_by_limit == deferred
        }),
{
    let ghost input = artists@;
    let sorted = sort_artists(artists);
    let ghost all = sorted@;
    let ghost pred = |a: Artist| spec_eligible(a, *args, *cfg);
    let mut rest = sorted;
    let mut eligible: Vec<Artist> = Vec::new();
    let ghost mut k: int = 0;
    while rest.len() > 0
        invariant
            0 <= k <= all.len(),
            rest@ == all.skip(k),
            eligible@ == all.take(k).filter(pred),
            pred == (|a: Artist| spec_eligible(a, *args, *cfg)),
        decreases rest@.len(),
    {
        let a = rest.remove(0);
        proof {
            assert(all.take(k + 1).drop_last() =~= all.take(k));
            assert(all.take(k + 1).last() == a);
            reveal(Seq::filter);
        }
        let ok = (args.artist_id.is_none() || a.id == args.artist_id) && (!cfg.only_monitored_artists
            || a.monitored == Some(true));
        if ok {
            eligible.push(a);
        }
        proof {
            k = k + 1;
            assert(rest@ =~= all.skip(k));
        }
    }
    assert(all.take(k) =~= all);
    let ghost e = eligible@;
    let scanned = eligible.len();
    let mut selected: Vec<SelectedArtist> = Vec::new();
    let mut hits: usize = 0;
    let mut misses: usize = 0;
    let mut deferred: usize = 0;
    let mut rest = eligible;
    let ghost mut k: int = 0;
    while rest.len() > 0
        invariant
            0 <= k <= e.len(),
            rest@ == e.skip(k),
            spec_select(now, e.take(k), rows@, *args, *cfg) == (selected_view(selected@), hits as nat, misses as nat, deferred as nat),
            hits + misses + deferred <= k,
            e.len() <= usize::MAX,
        decreases rest@.len(),
    {
        let a = rest.remove(0);
        proof {
            assert(e.take(k + 1).drop_last() =~= e.take(k));
            assert(e.take(k + 1).last() == a);
        }
        let id = sort_key_of(&a);
        if id != 0 {
            let fp = artist_fingerprint(&a, cfg);
            let fresh = if args.force {
                false
            } else {
                match cache_lookup(rows, id) {
                    Some(row) => cache_hit_at(now, row, fp.as_str(), cfg.cache_days),
                    None => false,
                }
            };
            if fresh {
                hits = hits + 1;
            } else if args.artist_id.is_none() && selected.len() >= cfg.max_artists_per_run {
                deferred = deferred + 1;
            } else {
                let ghost before = selected@;
                selected.push(SelectedArtist { artist: a, fingerprint: fp });
                assert(selected_view(selected@) =~= selected_view(before).push((a, fp@)));
                misses = misses + 1;
            }
        }
        proof {
            k = k + 1;
            assert(rest@ =~= e.skip(k));
        }
    }
    assert(e.take(k) =~= e);
    ArtistSelection { selected, artists_scanned: scanned, cache_hits: hits, cache_misses: misses, deferred_by_limit: deferred }
}

/// Chooses the artists of one run now (the system clock's time).
pub fn select_artists(artists: Vec<Artist>, rows: &[ArtistCache], args: &AlbumArgs, cfg: &AlbumConfig) -> (r: ArtistSelection)
    ensures
        exists|now: Instant|
            #![trigger spec_select(now, spec_eligible_sorted(artists@, *args, *cfg), rows@, *args, *cfg)]
            {
                let e = spec_eligible_sorted(artists@, *args, *cfg);
                let (sel, hits, misses, deferred) = spec_select(now, e, rows@, *args, *cfg);
                &&& r.artists_scanned == e.len()
                &&& selected_view(r.selected@) == sel
                &&& r.cache_hits == hits
                &&& r.cache_misses == misses
                &&& r.deferred_by_limit == deferred
            },
{
    let now = utc_now();
    select_artists_at(now, artists, rows, args, cfg)
}

/// Law: without `--artist-id`, one run selects at most `max_artists_per_run` artists.
pub proof fn selection_respects_run_limit(
    now: Instant,
    s: Seq<Artist>,
    rows: Seq<ArtistCache>,
    args: AlbumArgs,
    cfg: AlbumConfig,
)
    requires
        args.artist_id is None,
    ensures
        spec_select(now, s, rows, args, cfg).0.len() <= cfg.max_artists_per_run,
    decreases s.len(),
{
    if s.len() > 0 {
        selection_respects_run_limit(now, s.drop_last(), rows, args, cfg);
    }
}

/// Law: every eligible artist with an id is counted exactly once, as a cache hit, a
/// miss (selected) or a deferral.
pub proof fn selection_accounts_for_every_artist(
    now: Instant,
    s: Seq<Artist>,
    rows: Seq<ArtistCache>,
    args: AlbumArgs,
    cfg: AlbumConfig,
)
    ensures
        ({
            let (sel, hits, misses, deferred) = spec_select(now, s, rows, args, cfg);
            &&& sel.len() == misses
            &&& hits + misses + deferred == s.filter(|a: Artist| sort_key(a) != 0).len()
        }),
    decreases s.len(),
{
    reveal(Seq::filter);
    if s.len() > 0 {
        selection_accounts_for_every_artist(now, s.drop_last(), rows, args, cfg);
    }
}

/// Law: `--force` ignores the cache: no artist is a cache hit.
pub proof fn force_ignores_cache(now: Instant, s: Seq<Artist>, rows: Seq<ArtistCache>, args: AlbumArgs, cfg: AlbumConfig)
    requires
        args.force,
    ensures
        spec_select(now, s, rows, args, cfg).1 == 0,
    decreases s.len(),
{
    if s.len() > 0 {
        force_ignores_cache(now, s.drop_last(), rows, args, cfg);
    }
}


// ------------------------------------------------------------ run summary

/// Whether the target metadata profile exists among Lidarr's profiles (by id).
pub fn profile_exists(profile_ids: &[Option<i64>], target: i64) -> (r: bool)
    ensures
        r == exists|i: int| 0 <= i < profile_ids@.len() && profile_ids@[i] == Some(target),
{
    let mut i: usize = 0;
    while i < profile_ids.len()
        invariant
            i <= profile_ids@.len(),
            forall|k: int| 0 <= k < i ==> profile_ids@[k] != Some(target),
        decreases profile_ids@.len() - i,
    {
        if profile_ids[i] == Some(target) {
            return true;
        }
        i = i + 1;
    }
    false
}

/// What processing one artist produced.
#[derive(Debug, Clone, Copy)]
pub struct ArtistOutcome {
    pub metadata_updated: bool,
    pub duplicates: usize,
    pub reviews: usize,
    pub keeps: usize,
    pub unmonitored: usize,
    pub errors: usize,
}

/// The counts of one album-cleanup run.
#[derive(Debug, Clone, Copy, Default)]
pub struct Summary {
    pub artists_scanned: usize,
    pub artists_processed: usize,
    pub cache_hits: usize,
    pub cache_misses: usize,
    pub deferred_by_limit: usize,
    pub metadata_updates: usize,
    pub releases_checked: usize,
    pub duplicate_releases: usize,
    pub review_releases: usize,
    pub keep_releases: usize,
    pub unmonitored_releases: usize,
    pub errors: usize,
}

/// The counts before any artist is processed.
pub fn summary_start(sel: &ArtistSelection) -> (r: Summary)
    ensures
        r == (Summary {
            artists_scanned: sel.artists_scanned,
            artists_processed: 0,
            cache_hits: sel.cache_hits,
            cache_misses: sel.cache_misses,
            deferred_by_limit: sel.deferred_by_limit,
            metadata_updates: 0,
            releases_checked: 0,
            duplicate_releases: 0,
            review_releases: 0,
            keep_releases: 0,
            unmonitored_releases: 0,
            errors: 0,
        }),
{
    Summary {
        artists_scanned: sel.artists_scanned,
        artists_processed: 0,
        cache_hits: sel.cache_hits,
        cache_misses: sel.cache_misses,
        deferred_by_limit: sel.deferred_by_limit,
        metadata_updates: 0,
        releases_checked: 0,
        duplicate_releases: 0,
        review_releases: 0,
        keep_releases: 0,
        unmonitored_releases: 0,
        errors: 0,
    }
}

/// The counts after one more artist: a processed artist adds its profile update,
/// its releases by decision, its unmonitored releases and its errors; an artist
/// whose processing failed adds one error.
pub open spec fn spec_tally(s: Summary, o: Option<ArtistOutcome>) -> Summary {
    match o {
        Some(o) => Summary {
            artists_processed: (s.artists_processed + 1) as usize,
            metadata_updates: (s.metadata_updates + if o.metadata_updated { 1usize } else { 0usize }) as usize,
            releases_checked: (s.releases_checked + o.duplicates + o.reviews + o.keeps) as usize,
            duplicate_releases: (s.duplicate_releases + o.duplicates) as usize,
            review_releases: (s.review_releases + o.reviews) as usize,
            keep_releases: (s.keep_releases + o.keeps) as usize,
            unmonitored_releases: (s.unmonitored_releases + o.unmonitored) as usize,
            errors: (s.errors + o.errors) as usize,
            ..s
        },
        None => Summary { errors: (s.errors + 1) as usize, ..s },
    }
}

/// The counts fit after adding the outcome.
pub open spec fn tally_fits(s: Summary, o: Option<ArtistOutcome>) -> bool {
    match o {
        Some(o) => {
            &&& s.artists_processed + 1 <= usize::MAX
            &&& s.metadata_updates + 1 <= usize::MAX
            &&& s.releases_checked + o.duplicates + o.reviews + o.keeps <= usize::MAX
            &&& s.duplicate_releases + o.duplicates <= usize::MAX
            &&& s.review_releases + o.reviews <= usize::MAX
            &&& s.keep_releases + o.keeps <= usize::MAX
            &&& s.unmonitored_releases + o.unmonitored <= usize::MAX
            &&& s.errors + o.errors <= usize::MAX
        },
        None => s.errors + 1 <= usize::MAX,
    }
}

/// Adds an artist's outcome (`None` when its processing failed) to the counts.
pub fn tally(s: &mut Summary, o: Option<ArtistOutcome>)
    requires
        tally_fits(*old(s), o),
    ensures
        *final(s) == spec_tally(*old(s), o),
{
    match o {
        Some(o) => {
            s.artists_processed = s.artists_processed + 1;
            if o.metadata_updated {
                s.metadata_updates = s.metadata_updates + 1;
            }
            s.releases_checked = s.releases_checked + o.duplicates + o.reviews + o.keeps;
            s.duplicate_releases = s.duplicate_releases + o.duplicates;
            s.review_releases = s.review_releases + o.reviews;
            s.keep_releases = s.keep_releases + o.keeps;
            s.unmonitored_releases = s.unmonitored_releases + o.unmonitored;
            s.errors = s.errors + o.errors;
        },
        None => {
            s.errors = s.errors + 1;
        },
    }
}

/// The status an artist's run records: `error` when some write failed, else `success`.
pub open spec fn spec_artist_status(errors: nat) -> Seq<char> {
    if errors > 0 {
        "error"@
    } else {
        "success"@
    }
}

/// The status of an artist's run, from the number of failed writes.
pub fn artist_status(errors: usize) -> (r: &'static str)
    ensures
        r@ == spec_artist_status(errors as nat),
{
    if errors > 0 {
        "error"
    } else {
        "success"
    }
}

/// Law: the releases checked are always the duplicates, reviews and keeps together.
pub proof fn checked_releases_add_up(s: Summary, o: Option<ArtistOutcome>)
    requires
        s.releases_checked == s.duplicate_releases + s.review_releases + s.keep_releases,
        tally_fits(s, o),
    ensures
        spec_tally(s, o).releases_checked == spec_tally(s, o).duplicate_releases + spec_tally(s, o).review_releases
            + spec_tally(s, o).keep_releases,
{
}

} // verus!
