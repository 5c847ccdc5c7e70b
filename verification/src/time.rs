//! Instants in time as whole seconds and a sub-second part, and the calendar
//! arithmetic that the cleanup rules need.
use vstd::prelude::*;

verus! {

/// Nanoseconds in one second.
pub const NANOS_PER_SEC: u32 = 1_000_000_000;

/// An instant as Unix seconds and a sub-second part in nanoseconds.
/// The sub-second part reaches past one second only during a leap second.
#[derive(Clone, Copy, Debug, PartialEq, Eq, Structural)]
pub struct Instant {
    pub secs: i64,
    pub nanos: u32,
}

impl Instant {
    /// Well-formed: the sub-second part stays below two seconds.
    pub open spec fn wf(self) -> bool {
        self.nanos < 2_000_000_000
    }

    /// The instant on a single nanosecond scale.
    pub open spec fn total_nanos(self) -> int {
        self.secs as int * 1_000_000_000 + self.nanos as int
    }

    /// Strictly earlier than `other`.
    pub open spec fn spec_before(self, other: Instant) -> bool {
        self.total_nanos() < other.total_nanos()
    }

    /// Whether `self` lies strictly before `other`.
    pub fn before(&self, other: &Instant) -> (r: bool)
        ensures
            r == self.spec_before(*other),
    {
        let a: i128 = (self.secs as i128) * 1_000_000_000 + (self.nanos as i128);
        let b: i128 = (other.secs as i128) * 1_000_000_000 + (other.nanos as i128);
        a < b
    }
}

/// The instant `days` whole days before `t` (saturating at the ends of the range).
pub open spec fn spec_days_before(t: Instant, days: i64) -> Instant {
    let s = t.secs as int - days as int * 86_400;
    Instant {
        secs: if s < i64::MIN as int { i64::MIN } else if s > i64::MAX as int { i64::MAX } else { s as i64 },
        nanos: t.nanos,
    }
}

/// `t` moved back by `days` whole days.
pub fn days_before(t: Instant, days: i64) -> (r: Instant)
    ensures
        r == spec_days_before(t, days),
{
    let s: i128 = (t.secs as i128) - (days as i128) * 86_400;
    let secs: i64 = if s < (i64::MIN as i128) {
        i64::MIN
    } else if s > (i64::MAX as i128) {
        i64::MAX
    } else {
        s as i64
    };
    Instant { secs, nanos: t.nanos }
}

/// Whole days elapsed from `earlier` to `later`, truncated toward zero
/// (negative when `later` precedes `earlier`).
pub open spec fn spec_whole_days_between(later: Instant, earlier: Instant) -> int {
    let d = later.total_nanos() - earlier.total_nanos();
    if d >= 0 {
        d / 86_400_000_000_000
    } else {
        -((-d) / 86_400_000_000_000)
    }
}

/// Whole days elapsed from `earlier` to `later`, truncated toward zero.
pub fn whole_days_between(later: Instant, earlier: Instant) -> (r: i128)
    ensures
        r == spec_whole_days_between(later, earlier),
{
    let a: i128 = (later.secs as i128) * 1_000_000_000 + (later.nanos as i128);
    let b: i128 = (earlier.secs as i128) * 1_000_000_000 + (earlier.nanos as i128);
    let d: i128 = a - b;
    if d >= 0 {
        d / 86_400_000_000_000
    } else {
        0 - ((0 - d) / 86_400_000_000_000)
    }
}

} // verus!
