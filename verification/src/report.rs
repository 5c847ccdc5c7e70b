//! Run identifiers and report file names.
use vstd::prelude::*;

use crate::bindings::{
    four_digit_year, is_hex_lower, random_uuid_simple, rfc3339_instant, rfc3339_text, utc_compact_stamp, utc_now_rfc3339,
};
use crate::time::Instant;
use crate::text::{chars_of, push_str, string_of};

verus! {

/// The current time in RFC 3339 (UTC, `+00:00`): the text of the instant the clock
/// reads, which reads back as that instant for years 0 through 9999.
pub fn now_iso() -> (r: String)
    ensures
        exists|t: Instant|
            #![trigger rfc3339_text(t.secs, t.nanos)]
            t.wf() && r@ == rfc3339_text(t.secs, t.nanos) && (four_digit_year(t.secs) ==> rfc3339_instant(r@)
                == Some((t.secs, t.nanos))),
{
    let (_now, text) = utc_now_rfc3339();
    text
}

/// A run id: the prefix, the UTC time stamp and a random suffix, joined by `-`.
pub open spec fn spec_run_id(prefix: Seq<char>, stamp: Seq<char>, suffix: Seq<char>) -> Seq<char> {
    prefix + "-"@ + stamp + "-"@ + suffix
}

/// Joins the parts of a run id.
pub fn compose_run_id(prefix: &str, stamp: &str, suffix: &str) -> (r: String)
    ensures
        r@ == spec_run_id(prefix@, stamp@, suffix@),
{
    let mut v = chars_of(prefix);
    push_str(&mut v, "-");
    push_str(&mut v, stamp);
    push_str(&mut v, "-");
    push_str(&mut v, suffix);
    string_of(v.as_slice())
}

/// A fresh run id for `prefix`: the current UTC time stamp (`%Y%m%dT%H%M%SZ`) and a
/// random 32-digit lower-case hex suffix.
pub fn run_id(prefix: &str) -> (r: String)
    ensures
        exists|stamp: Seq<char>, suffix: Seq<char>|
            #![trigger spec_run_id(prefix@, stamp, suffix)]
            r@ == spec_run_id(prefix@, stamp, suffix) && suffix.len() == 32 && (forall|i: int|
                0 <= i < 32 ==> is_hex_lower(#[trigger] suffix[i])),
{
    let stamp = utc_compact_stamp();
    let suffix = random_uuid_simple();
    compose_run_id(prefix, stamp.as_str(), suffix.as_str())
}

/// The report file name of a run.
pub open spec fn spec_report_file_name(prefix: Seq<char>, run_id: Seq<char>) -> Seq<char> {
    prefix + "-"@ + run_id + ".json"@
}

/// The report file name of a run.
pub fn report_file_name(prefix: &str, run_id: &str) -> (r: String)
    ensures
        r@ == spec_report_file_name(prefix@, run_id@),
{
    let mut v = chars_of(prefix);
    push_str(&mut v, "-");
    push_str(&mut v, run_id);
    push_str(&mut v, ".json");
    string_of(v.as_slice())
}

} // verus!
