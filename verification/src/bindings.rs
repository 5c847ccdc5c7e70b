//! Calls into std and outside crates that Verus does not read. Each item states
//! what its contract claims of the code it calls; everything else in the library
//! is proved against these statements.
use sha2::Digest;
use vstd::prelude::*;
use vstd::utf8::encode_utf8;

use crate::text::hex_lower_char;
use crate::time::Instant;

verus! {

// ---------------------------------------------------------------- chrono

/// The instant that an RFC 3339 text denotes, as Unix seconds and nanoseconds,
/// or `None` when the text is not RFC 3339.
pub uninterp spec fn rfc3339_instant(text: Seq<char>) -> Option<(i64, u32)>;

/// `chrono::DateTime::parse_from_rfc3339`, read back as `timestamp()` and
/// `timestamp_subsec_nanos()`. Claims: the result is a function of the text alone,
/// and the sub-second part is below two seconds (chrono's documented range).
#[verifier::external_body]
pub(crate) fn parse_rfc3339(text: &str) -> (r: Option<Instant>)
    ensures
        match r {
            Some(t) => rfc3339_instant(text@) == Some((t.secs, t.nanos)) && t.wf(),
            None => rfc3339_instant(text@) is None,
        },
{
    match chrono::DateTime::parse_from_rfc3339(text) {
        Ok(dt) => Some(Instant { secs: dt.timestamp(), nanos: dt.timestamp_subsec_nanos() }),
        Err(_) => None,
    }
}

/// The system clock as a `chrono::DateTime<Utc>` (`From<SystemTime>`, which also
/// covers a clock before 1970), read back as seconds and nanoseconds. Claims only the
/// documented range of the sub-second part; the instant itself is the clock's.
#[verifier::external_body]
pub(crate) fn utc_now() -> (r: Instant)
    ensures
        r.wf(),
{
    let now = chrono::DateTime::<chrono::Utc>::from(std::time::SystemTime::now());
    Instant { secs: now.timestamp(), nanos: now.timestamp_subsec_nanos() }
}

/// `timestamp_millis` of the system clock as a `chrono::DateTime<Utc>`
/// (`From<SystemTime>`). Claims nothing: the value is the clock's.
#[verifier::external_body]
pub(crate) fn utc_now_millis() -> i64 {
    chrono::DateTime::<chrono::Utc>::from(std::time::SystemTime::now()).timestamp_millis()
}

/// The text that `DateTime::<Utc>::to_rfc3339` writes for the instant of Unix seconds
/// `secs` and sub-second nanoseconds `nanos`.
pub uninterp spec fn rfc3339_text(secs: i64, nanos: u32) -> Seq<char>;

/// Instants from year 0 through year 9999 (UTC), as Unix seconds: those whose text
/// has the four-digit year that RFC 3339 asks for.
pub open spec fn four_digit_year(secs: i64) -> bool {
    -62_167_219_200 <= secs && secs <= 253_402_300_799
}

/// The system clock as a `chrono::DateTime<Utc>` (`From<SystemTime>`), read back as
/// seconds and nanoseconds, with its `to_rfc3339` text. Claims: the text is a
/// function of the instant; for a
/// four-digit year, `parse_from_rfc3339` reads the text back as the same instant
/// (chrono writes the date, the time with `60` for a leap second, the fraction as
/// needed and `+00:00`, and its RFC 3339 parser reads exactly that form); and the
/// sub-second part is below two seconds. The instant itself is the clock's.
#[verifier::external_body]
pub(crate) fn utc_now_rfc3339() -> (r: (Instant, String))
    ensures
        r.0.wf(),
        r.1@ == rfc3339_text(r.0.secs, r.0.nanos),
        four_digit_year(r.0.secs) ==> rfc3339_instant(r.1@) == Some((r.0.secs, r.0.nanos)),
{
    let now = chrono::DateTime::<chrono::Utc>::from(std::time::SystemTime::now());
    (Instant { secs: now.timestamp(), nanos: now.timestamp_subsec_nanos() }, now.to_rfc3339())
}

/// `format("%Y%m%dT%H%M%SZ")` of the system clock as a `chrono::DateTime<Utc>`
/// (`From<SystemTime>`). Claims nothing: the text depends on the clock.
#[verifier::external_body]
pub(crate) fn utc_compact_stamp() -> String {
    chrono::DateTime::<chrono::Utc>::from(std::time::SystemTime::now()).format("%Y%m%dT%H%M%SZ").to_string()
}

// ---------------------------------------------------------------- uuid

/// Lower-case hexadecimal digits.
pub open spec fn is_hex_lower(c: char) -> bool {
    ('0' <= c && c <= '9') || ('a' <= c && c <= 'f')
}

/// `uuid::Uuid::new_v4().simple().to_string()`. Claims the documented shape of the
/// simple format, 32 lower-case hexadecimal digits; the digits are random.
#[verifier::external_body]
pub(crate) fn random_uuid_simple() -> (r: String)
    ensures
        r@.len() == 32,
        forall|i: int| 0 <= i < 32 ==> is_hex_lower(#[trigger] r@[i]),
{
    uuid::Uuid::new_v4().simple().to_string()
}

// ---------------------------------------------------------------- sha2

/// The SHA-256 digest of the UTF-8 encoding of a text.
pub uninterp spec fn sha256_utf8(text: Seq<char>) -> Seq<u8>;

/// `sha2::Sha256::digest` of the text's UTF-8 bytes. Claims: the digest is a
/// function of the text, and it is 32 bytes long.
#[verifier::external_body]
pub(crate) fn sha256_of_text(text: &str) -> (r: Vec<u8>)
    ensures
        r@ == sha256_utf8(text@),
        r@.len() == 32,
{
    sha2::Sha256::digest(text.as_bytes()).to_vec()
}

// ---------------------------------------------------------------- serde_json

/// How `serde_json` writes one character inside a JSON string literal.
pub open spec fn json_escape_char(c: char) -> Seq<char> {
    if c == '"' {
        seq!['\\', '"']
    } else if c == '\\' {
        seq!['\\', '\\']
    } else if c == '\u{8}' {
        seq!['\\', 'b']
    } else if c == '\t' {
        seq!['\\', 't']
    } else if c == '\n' {
        seq!['\\', 'n']
    } else if c == '\u{c}' {
        seq!['\\', 'f']
    } else if c == '\r' {
        seq!['\\', 'r']
    } else if (c as u32) < 0x20 {
        seq!['\\', 'u', '0', '0', hex_lower_char((c as u32 / 16) as int), hex_lower_char((c as u32 % 16) as int)]
    } else {
        seq![c]
    }
}

/// The escaped body of a JSON string literal.
pub open spec fn json_escape(s: Seq<char>) -> Seq<char>
    decreases s.len(),
{
    if s.len() == 0 {
        Seq::empty()
    } else {
        json_escape(s.drop_last()) + json_escape_char(s.last())
    }
}

/// A text as a quoted JSON string literal.
pub open spec fn json_string_literal(s: Seq<char>) -> Seq<char> {
    seq!['"'] + json_escape(s) + seq!['"']
}

/// `serde_json::to_string` of a `&str`. Claims the escaping that serde_json's
/// serializer applies (its `ESCAPE` table: quote, backslash, the short escapes
/// `\b \t \n \f \r`, `\u00xx` for other control characters, everything else as is).
/// Serializing a string into memory cannot fail.
#[verifier::external_body]
pub(crate) fn json_quote(s: &str) -> (r: String)
    ensures
        r@ == json_string_literal(s@),
{
    match serde_json::to_string(s) {
        Ok(text) => text,
        Err(_) => String::new(),
    }
}

// ---------------------------------------------------------------- urlencoding

/// Bytes that `urlencoding` leaves as they are.
pub open spec fn url_safe_byte(b: u8) -> bool {
    (48 <= b && b <= 57) || (65 <= b && b <= 90) || (97 <= b && b <= 122) || b == 45 || b == 46
        || b == 95 || b == 126
}

/// Upper-case hexadecimal digit for `d < 16`.
pub open spec fn hex_upper_char(d: int) -> char {
    if d < 10 {
        (d + 48) as char
    } else {
        (d - 10 + 65) as char
    }
}

/// Percent-encoding of a byte sequence.
pub open spec fn percent_encode(bytes: Seq<u8>) -> Seq<char>
    decreases bytes.len(),
{
    if bytes.len() == 0 {
        Seq::empty()
    } else {
        let b = bytes.last();
        percent_encode(bytes.drop_last()) + if url_safe_byte(b) {
            seq![b as char]
        } else {
            seq!['%', hex_upper_char((b / 16) as int), hex_upper_char((b % 16) as int)]
        }
    }
}

/// `urlencoding::encode`. Claims what its source does: every UTF-8 byte except
/// ASCII letters, digits and `- . _ ~` becomes `%XX` with upper-case hex digits.
#[verifier::external_body]
pub(crate) fn url_encode(s: &str) -> (r: String)
    ensures
        r@ == percent_encode(encode_utf8(s@)),
{
    urlencoding::encode(s).into_owned()
}

// ---------------------------------------------------------------- std::path

/// The path `path` relative to `base` (`Path::strip_prefix`), or `None` when
/// `base` is not a leading run of components of `path`.
pub uninterp spec fn stripped_path(path: Seq<char>, base: Seq<char>) -> Option<Seq<char>>;

/// The path `rel` joined onto `base` (`Path::join`).
pub uninterp spec fn joined_path(base: Seq<char>, rel: Seq<char>) -> Seq<char>;

/// `std::path::Path::strip_prefix`, read back as a string. Claims: the outcome is
/// a function of the two paths.
#[verifier::external_body]
pub(crate) fn path_strip_prefix(path: &str, base: &str) -> (r: Option<String>)
    ensures
        match r {
            Some(rel) => stripped_path(path@, base@) == Some(rel@),
            None => stripped_path(path@, base@) is None,
        },
{
    match std::path::Path::new(path).strip_prefix(base) {
        Ok(rel) => Some(rel.to_string_lossy().into_owned()),
        Err(_) => None,
    }
}

/// `std::path::Path::join`, read back as a string. Claims: the result is a function
/// of the two paths.
#[verifier::external_body]
pub(crate) fn path_join(base: &str, rel: &str) -> (r: String)
    ensures
        r@ == joined_path(base@, rel@),
{
    std::path::Path::new(base).join(rel).to_string_lossy().into_owned()
}

/// `std::path::Path::is_file`. Claims nothing: the answer depends on the disk.
#[verifier::external_body]
pub(crate) fn path_is_file(path: &str) -> bool {
    std::path::Path::new(path).is_file()
}

// ---------------------------------------------------------------- str

/// The lower-case form of a text (`str::to_lowercase`, Unicode rules).
pub uninterp spec fn lowercased(s: Seq<char>) -> Seq<char>;

/// ASCII characters.
pub open spec fn is_ascii_char(c: char) -> bool {
    (c as u32) < 128
}

/// The ASCII lower-case form of a character.
pub open spec fn ascii_lower(c: char) -> char {
    if 'A' <= c && c <= 'Z' {
        ((c as u32) + 32) as char
    } else {
        c
    }
}

/// Every character is ASCII.
pub open spec fn all_ascii(s: Seq<char>) -> bool {
    forall|i: int| 0 <= i < s.len() ==> is_ascii_char(#[trigger] s[i])
}

/// The lower-case form of a text: on ASCII text `A`..`Z` become `a`..`z` and every
/// other character stays; other text follows the Unicode rules.
pub open spec fn text_lowercase(s: Seq<char>) -> Seq<char> {
    if all_ascii(s) {
        s.map_values(|c: char| ascii_lower(c))
    } else {
        lowercased(s)
    }
}

/// No ASCII capital letter occurs.
pub open spec fn no_ascii_upper(s: Seq<char>) -> bool {
    forall|i: int| 0 <= i < s.len() ==> !('A' <= #[trigger] s[i] && s[i] <= 'Z')
}

/// `str::to_lowercase`. Claims: the result is a function of the text; on ASCII text
/// it maps `A`..`Z` to `a`..`z` and leaves every other character as it is; and the
/// result, being the lower-case equivalent, holds no ASCII capital letter.
#[verifier::external_body]
pub(crate) fn to_lowercase(s: &str) -> (r: String)
    ensures
        r@ == lowercased(s@),
        r@ == text_lowercase(s@),
        no_ascii_upper(r@),
{
    s.to_lowercase()
}

} // verus!
