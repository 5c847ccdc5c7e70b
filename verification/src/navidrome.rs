//! Navidrome rescan: reading the Subsonic replies while waiting for the scan.
use vstd::prelude::*;

use crate::text::str_eq;

verus! {

/// What a Subsonic scan reply means.
#[derive(Debug, Clone, Copy, PartialEq, Eq, Structural)]
pub enum ScanReply {
    /// The reply's status is not `ok`: the rescan failed.
    Failed,
    /// The scan is no longer running: done.
    Finished,
    /// Still scanning and the deadline has passed.
    TimedOut,
    /// Still scanning: poll again.
    Wait,
}

/// The meaning of a reply: a status other than the text `ok` fails; `scanning` equal
/// to `false` finishes; otherwise the deadline decides between waiting and timing out.
pub open spec fn spec_scan_reply(status: Option<Seq<char>>, scanning: Option<bool>, deadline_passed: bool) -> ScanReply {
    if status != Some("ok"@) {
        ScanReply::Failed
    } else if scanning == Some(false) {
        ScanReply::Finished
    } else if deadline_passed {
        ScanReply::TimedOut
    } else {
        ScanReply::Wait
    }
}

/// Reads a Subsonic reply (`status` when it is a string, `scanStatus.scanning` when it
/// is a boolean).
pub fn scan_reply(status: Option<&str>, scanning: Option<bool>, deadline_passed: bool) -> (r: ScanReply)
    ensures
        r == spec_scan_reply(match status {
            Some(s) => Some(s@),
            None => None,
        }, scanning, deadline_passed),
{
    let ok = match status {
        Some(s) => str_eq(s, "ok"),
        None => false,
    };
    if !ok {
        ScanReply::Failed
    } else if scanning == Some(false) {
        ScanReply::Finished
    } else if deadline_passed {
        ScanReply::TimedOut
    } else {
        ScanReply::Wait
    }
}

} // verus!
