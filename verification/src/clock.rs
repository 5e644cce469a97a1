use vstd::prelude::*;

verus! {

/// A point in time as seconds since the Unix epoch and the nanoseconds
/// since the last second boundary (a leap second may push them past
/// 999,999,999).
#[derive(Clone, Copy, Debug, PartialEq, Eq, Structural)]
pub struct Timestamp {
    pub secs: i64,
    pub nanos: u32,
}

/// Reads the system clock through `chrono::Utc::now`.
///
/// The clock reading depends on the moment of the call; all that is claimed
/// is what chrono's construction of `now` gives every outcome: a time at or
/// after the epoch (chrono panics on a clock set before it) whose sub-second
/// part is a plain duration remainder, below one second.
#[verifier::external_body]
pub(crate) fn utc_now() -> (t: Timestamp)
    ensures
        t.secs >= 0,
        t.nanos < 1_000_000_000,
{
    let now = chrono::Utc::now();
    Timestamp { secs: now.timestamp(), nanos: now.timestamp_subsec_nanos() }
}

/// Nanoseconds since the epoch, when they fit in an `i64`. For negative
/// seconds the sum is formed as `(secs + 1) * 10^9 + (nanos - 10^9)`, so that
/// no intermediate value leaves the `i64` range when the result does not.
pub open spec fn spec_nanos_since_epoch(t: Timestamp) -> Option<i64> {
    let (s, n) = if t.secs < 0 {
        (t.secs + 1, t.nanos - 1_000_000_000)
    } else {
        (t.secs as int, t.nanos as int)
    };
    let scaled = s * 1_000_000_000;
    if i64::MIN <= scaled <= i64::MAX && i64::MIN <= scaled + n <= i64::MAX {
        Some((scaled + n) as i64)
    } else {
        None
    }
}

impl Timestamp {
    /// The nanoseconds since the epoch, or `None` when they do not fit in an `i64`.
    pub fn nanos_since_epoch(&self) -> (r: Option<i64>)
        ensures
            r == spec_nanos_since_epoch(*self),
    {
        let mut secs: i64 = self.secs;
        let mut sub: i64 = self.nanos as i64;
        if secs < 0 {
            sub = sub - 1_000_000_000;
            secs = secs + 1;
        }
        match secs.checked_mul(1_000_000_000) {
            Some(scaled) => scaled.checked_add(sub),
            None => None,
        }
    }
}

/// The system clock's type, carried through opaquely.
#[verifier::external_type_specification]
#[verifier::external_body]
pub struct ExSystemTime(std::time::SystemTime);

/// A point in time as its distance from the Unix epoch: whole seconds and
/// the nanoseconds beyond them, with the side of the epoch it lies on.
#[derive(Clone, Copy, Debug, PartialEq, Eq, Structural)]
pub struct EpochOffset {
    pub before_epoch: bool,
    pub secs: u64,
    pub nanos: u32,
}

/// Reads the system clock through `std::time::SystemTime::now`. Nothing is
/// claimed of the reading.
#[verifier::external_body]
pub(crate) fn system_now() -> std::time::SystemTime {
    std::time::SystemTime::now()
}

/// Calls `SystemTime::duration_since(UNIX_EPOCH)` and keeps the duration of
/// the answer, or of its error when the time lies before the epoch.
///
/// What is claimed is what `Duration` documents: its sub-second part is
/// below one second. The duration itself is not tied to the argument here.
#[verifier::external_body]
pub(crate) fn epoch_offset(t: std::time::SystemTime) -> (r: EpochOffset)
    ensures
        r.nanos < 1_000_000_000,
{
    match t.duration_since(std::time::UNIX_EPOCH) {
        Ok(d) => EpochOffset { before_epoch: false, secs: d.as_secs(), nanos: d.subsec_nanos() },
        Err(e) => EpochOffset {
            before_epoch: true,
            secs: e.duration().as_secs(),
            nanos: e.duration().subsec_nanos(),
        },
    }
}

/// A point in time together with the offset of the local time zone at that
/// time, in seconds to add to UTC.
#[derive(Clone, Copy, Debug, PartialEq, Eq, Structural)]
pub struct LocalTimestamp {
    pub instant: Timestamp,
    pub local_minus_utc: i32,
}

/// Reads the system clock in the local time zone through `chrono::Local::now`.
///
/// chrono builds it as `Utc::now()` seen in the local zone, so the instant
/// has what `utc_now` claims (and chrono panics alike on a clock set before
/// the epoch); the offset is a `FixedOffset`, which chrono keeps strictly
/// within one day either way.
#[verifier::external_body]
pub(crate) fn local_now() -> (t: LocalTimestamp)
    ensures
        t.instant.secs >= 0,
        t.instant.nanos < 1_000_000_000,
        -86_400 < t.local_minus_utc < 86_400,
{
    let now = chrono::Local::now();
    LocalTimestamp {
        instant: Timestamp { secs: now.timestamp(), nanos: now.timestamp_subsec_nanos() },
        local_minus_utc: now.offset().local_minus_utc(),
    }
}

} // verus!
