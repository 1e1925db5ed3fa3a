//! Points in time and the whole seconds between them.

use vstd::prelude::*;

verus! {

/// The number of nanoseconds in one second.
pub const NANOS_PER_SECOND: u32 = 1_000_000_000;

/// A point in time on the UTC time line: whole seconds since the Unix epoch
/// and the nanoseconds into that second.
#[derive(Clone, Copy, Debug, PartialEq, Eq, Structural)]
pub struct Instant {
    pub secs: i64,
    pub nanos: u32,
}

/// A span of time in whole seconds. It is never negative, and wide enough to
/// hold the sum of as many spans between instants as a `Vec` can hold.
#[derive(Clone, Copy, Debug, PartialEq, Eq, Structural)]
pub struct Duration {
    pub seconds: u128,
}

impl Instant {
    /// The canonical form: the nanosecond part stays below one second.
    pub open spec fn wf(self) -> bool {
        self.nanos < NANOS_PER_SECOND
    }

    /// The instant as nanoseconds since the epoch.
    pub open spec fn as_nanos(self) -> int {
        self.secs * 1_000_000_000 + self.nanos
    }

    /// Whether `self` comes strictly after `other`.
    pub open spec fn is_after(self, other: Instant) -> bool {
        self.as_nanos() > other.as_nanos()
    }

    /// The whole seconds from `self` to `later`, rounded down.
    pub open spec fn whole_seconds_until(self, later: Instant) -> int {
        (later.as_nanos() - self.as_nanos()) / 1_000_000_000
    }

    /// Builds the instant `nanos` nanoseconds into second `secs`.
    pub fn new(secs: i64, nanos: u32) -> (r: Instant)
        ensures
            r.secs == secs,
            r.nanos == nanos,
    {
        Instant { secs, nanos }
    }

    /// The instant `nanos` nanoseconds after second `secs`, in canonical form:
    /// whole seconds among the nanoseconds are carried over. `None` where the
    /// seconds would no longer fit.
    pub fn normalized(secs: i64, nanos: u32) -> (r: Option<Instant>)
        ensures
            r is Some <==> secs + nanos / NANOS_PER_SECOND <= i64::MAX,
            r matches Some(i) ==> i.wf() && i.as_nanos() == secs * 1_000_000_000 + nanos,
            r matches Some(i) ==> i.secs == secs + nanos / NANOS_PER_SECOND && i.nanos == nanos
                % NANOS_PER_SECOND,
            nanos < NANOS_PER_SECOND ==> r == Some(Instant { secs, nanos }),
    {
        let carry: u32 = nanos / NANOS_PER_SECOND;
        let wide: i128 = secs as i128 + carry as i128;
        if wide > i64::MAX as i128 {
            None
        } else {
            Some(Instant { secs: wide as i64, nanos: nanos % NANOS_PER_SECOND })
        }
    }

    /// Tells whether the instant is in canonical form.
    pub fn is_valid(&self) -> (r: bool)
        ensures
            r == self.wf(),
    {
        self.nanos < NANOS_PER_SECOND
    }

    /// The instant as nanoseconds since the epoch.
    pub fn nanos_since_epoch(&self) -> (r: i128)
        ensures
            r == self.as_nanos(),
    {
        let secs: i128 = self.secs as i128;
        let nanos: i128 = self.nanos as i128;
        secs * 1_000_000_000 + nanos
    }

    /// Tells whether `self` comes strictly after `other`.
    pub fn after(&self, other: &Instant) -> (r: bool)
        ensures
            r == self.is_after(*other),
    {
        self.nanos_since_epoch() > other.nanos_since_epoch()
    }

    /// The whole seconds that pass from `self` to `later`, or `None` where
    /// `later` lies before `self`.
    pub fn seconds_until(&self, later: &Instant) -> (r: Option<Duration>)
        ensures
            self.is_after(*later) <==> r is None,
            r matches Some(d) ==> d.seconds == self.whole_seconds_until(*later),
            r matches Some(d) ==> d.seconds <= u64::MAX + 4,
            r matches Some(d) ==> self.wf() && later.wf() ==> d.seconds <= u64::MAX,
    {
        let from: i128 = self.nanos_since_epoch();
        let to: i128 = later.nanos_since_epoch();
        if from > to {
            None
        } else {
            let gap: i128 = (to - from) / 1_000_000_000;
            Some(Duration { seconds: gap as u128 })
        }
    }
}

impl Duration {
    /// The empty span.
    pub fn zero() -> (r: Duration)
        ensures
            r.seconds == 0,
    {
        Duration { seconds: 0 }
    }

    /// The span of `seconds` seconds.
    pub fn from_seconds(seconds: u128) -> (r: Duration)
        ensures
            r.seconds == seconds,
    {
        Duration { seconds }
    }

    /// The whole seconds of the span.
    pub fn num_seconds(&self) -> (r: u128)
        ensures
            r == self.seconds,
    {
        self.seconds
    }
}

} // verus!
