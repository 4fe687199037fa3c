//! Clocks: a monotonic one for rate limiting and the UTC wall clock for
//! expiry times and entity timestamps.

use std::time::{Duration, Instant};
use vstd::prelude::*;

verus! {

/// A point of the monotonic clock (`std::time::Instant`).
#[verifier::external_type_specification]
#[verifier::external_body]
pub struct ExInstant(Instant);

/// `Instant::now()`: the current point of the monotonic clock.
#[verifier::external_body]
pub(crate) fn instant_now() -> Instant {
    Instant::now()
}

/// `origin.elapsed().as_nanos()`: nanoseconds that have passed since `origin`.
/// The value depends on when the call is made; nothing is stated of it.
#[verifier::external_body]
pub(crate) fn nanos_since(origin: &Instant) -> u128 {
    origin.elapsed().as_nanos()
}

/// The monotonic clock as one limiter sees it: the moment it was started
/// and the latest reading taken of it.
#[derive(Clone, Copy)]
pub struct Stopwatch {
    origin: Instant,
    latest: u128,
}

impl Stopwatch {
    /// The latest reading: nanoseconds from the start to the moment it was
    /// taken (zero before the first).
    pub closed spec fn latest(&self) -> u128 {
        self.latest
    }

    /// A stopwatch started now.
    pub fn start() -> (w: Self)
        ensures
            w.latest() == 0,
    {
        Stopwatch { origin: instant_now(), latest: 0 }
    }

    /// Nanoseconds since the start, read now. `Instant` is a nondecreasing
    /// clock, so a reading is never below an earlier one; should the
    /// platform break that promise, the earlier reading is kept.
    pub fn read(&mut self) -> (t: u128)
        ensures
            t >= old(self).latest(),
            final(self).latest() == t,
    {
        let raw = nanos_since(&self.origin);
        let t = if raw >= self.latest {
            raw
        } else {
            self.latest
        };
        self.latest = t;
        t
    }
}

/// What `Duration::as_nanos` gives: the whole length in nanoseconds.
pub uninterp spec fn duration_nanos(d: Duration) -> u128;

/// What `format!("{:?}", d)` gives for a `Duration` (such as `1s` or `1.5ms`).
pub uninterp spec fn duration_debug(d: Duration) -> Seq<char>;

/// `Duration::as_nanos`.
#[verifier::external_body]
pub(crate) fn nanos_of(d: &Duration) -> (n: u128)
    ensures
        n == duration_nanos(*d),
{
    d.as_nanos()
}

/// `format!("{:?}", d)` for a `Duration`.
#[verifier::external_body]
pub(crate) fn debug_text(d: &Duration) -> (s: String)
    ensures
        s@ == duration_debug(*d),
{
    format!("{:?}", d)
}

/// `chrono::Utc::now()` as its whole seconds since the Unix epoch
/// (`timestamp`) and the nanoseconds past that second
/// (`timestamp_subsec_nanos`, below 2 000 000 000 as chrono documents,
/// the upper half being used only in a leap second). The time itself
/// depends on when the call is made; nothing else is stated of it.
#[verifier::external_body]
pub(crate) fn utc_now_parts() -> (r: (i64, u32))
    ensures
        r.1 < 2_000_000_000,
{
    let now = chrono::Utc::now();
    (now.timestamp(), now.timestamp_subsec_nanos())
}

/// Nanoseconds since the Unix epoch, as the UTC wall clock gives them.
pub open spec fn epoch_nanos(secs: i64, subsec: u32) -> int {
    secs * 1_000_000_000 + subsec
}

/// The current UTC time in nanoseconds since the Unix epoch.
pub fn utc_now_nanos() -> (t: i128)
    ensures
        exists|secs: i64, subsec: u32| subsec < 2_000_000_000 && t == epoch_nanos(secs, subsec),
{
    let (secs, subsec) = utc_now_parts();
    let t = secs as i128 * 1_000_000_000 + subsec as i128;
    assert(t == epoch_nanos(secs, subsec));
    t
}

/// The UTC wall clock as one cache sees it: the latest reading taken of it.
#[derive(Clone, Copy)]
pub struct WallClock {
    latest: i128,
}

impl WallClock {
    /// The latest reading, in nanoseconds since the Unix epoch.
    pub closed spec fn latest(&self) -> i128 {
        self.latest
    }

    /// A clock holding a first reading, taken now.
    pub fn start() -> (c: Self)
        ensures
            exists|secs: i64, subsec: u32|
                subsec < 2_000_000_000 && c.latest() == epoch_nanos(secs, subsec),
    {
        let mut c = WallClock { latest: 0 };
        c.read();
        c
    }

    /// The UTC time now, in nanoseconds since the Unix epoch. The wall
    /// clock can be set back, so a reading may lie below an earlier one.
    pub fn read(&mut self) -> (t: i128)
        ensures
            final(self).latest() == t,
            exists|secs: i64, subsec: u32| subsec < 2_000_000_000 && t == epoch_nanos(secs, subsec),
    {
        let t = utc_now_nanos();
        self.latest = t;
        t
    }
}

} // verus!
