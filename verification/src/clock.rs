//! Points in time, as plain numbers.
use crate::transcript::{MAX_UNIX_SECS, MIN_UNIX_SECS};
use vstd::prelude::*;

verus! {

/// The number of nanoseconds in a second.
pub const NANOS_PER_SEC: u32 = 1_000_000_000;

/// A point in time: whole seconds since the Unix epoch, and the nanoseconds past them.
#[derive(Debug, Clone, Copy, PartialEq, Eq, Structural)]
pub struct Moment {
    pub secs: i64,
    pub nanos: u32,
}

impl Moment {
    /// The nanoseconds are less than a second.
    pub open spec fn wf(self) -> bool {
        self.nanos < NANOS_PER_SEC
    }

    /// Nanoseconds since the Unix epoch.
    pub open spec fn total(self) -> int {
        self.secs * NANOS_PER_SEC + self.nanos
    }

    /// Whether this moment is `other` or a later one.
    pub fn at_or_after(self, other: Moment) -> (r: bool)
        requires
            self.wf(),
            other.wf(),
        ensures
            r == (self.total() >= other.total()),
    {
        self.secs > other.secs || (self.secs == other.secs && self.nanos >= other.nanos)
    }
}

/// The whole seconds that passed from `then` to `now`; none where `now` is the earlier.
pub open spec fn elapsed(then: Moment, now: Moment) -> int {
    if now.total() < then.total() {
        0
    } else {
        (now.total() - then.total()) / (NANOS_PER_SEC as int)
    }
}

/// The whole seconds that passed from `then` to `now`; none where `now` is the earlier.
pub fn elapsed_secs(then: Moment, now: Moment) -> (r: u64)
    requires
        then.wf(),
        now.wf(),
    ensures
        r == elapsed(then, now),
{
    if !now.at_or_after(then) {
        return 0;
    }
    let whole: i128 = now.secs as i128 - then.secs as i128;
    let borrow: i128 = if now.nanos < then.nanos {
        1
    } else {
        0
    };
    (whole - borrow) as u64
}

/// `chrono::Local::now`, as the seconds and nanoseconds of its `timestamp` and
/// `timestamp_subsec_nanos`. Which time the clock shows is left unsaid, but that it is
/// within the years that `chrono` has dates for, as every `DateTime` is, and that the
/// nanoseconds stay under two seconds; they exceed one in a leap second only.
#[verifier::external_body]
fn read_clock() -> (r: (i64, u32))
    ensures
        MIN_UNIX_SECS <= r.0 <= MAX_UNIX_SECS,
        r.1 < 2 * NANOS_PER_SEC,
{
    let t = chrono::Local::now();
    (t.timestamp(), t.timestamp_subsec_nanos())
}

/// The moment that a clock shows, given its seconds and the nanoseconds past them. A leap
/// second, in which the nanoseconds run on, counts as the last nanosecond before it.
pub fn moment_shown(secs: i64, nanos: u32) -> (r: Moment)
    ensures
        r == (Moment {
            secs,
            nanos: if nanos < NANOS_PER_SEC {
                nanos
            } else {
                (NANOS_PER_SEC - 1) as u32
            },
        }),
        r.wf(),
{
    Moment { secs, nanos: if nanos < NANOS_PER_SEC { nanos } else { NANOS_PER_SEC - 1 } }
}

/// The current time. Its second is one that a date is at, so it can be stored in seconds
/// and read back.
pub fn local_now() -> (r: Moment)
    ensures
        r.wf(),
        MIN_UNIX_SECS <= r.secs <= MAX_UNIX_SECS,
{
    let (secs, nanos) = read_clock();
    moment_shown(secs, nanos)
}

/// The seconds between two moments are whole ones, rounded down, and never fewer than
/// none.
pub proof fn law_seconds_are_whole(then: Moment, now: Moment)
    ensures
        elapsed(then, now) >= 0,
        now.total() < then.total() ==> elapsed(then, now) == 0,
        now.total() >= then.total() ==> elapsed(then, now) * NANOS_PER_SEC <= now.total()
            - then.total() < (elapsed(then, now) + 1) * NANOS_PER_SEC,
{
}

} // verus!
