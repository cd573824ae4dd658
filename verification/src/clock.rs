//! Coarse time: instants and spans counted in ticks of 2^-32 seconds.

use vstd::prelude::*;

verus! {

pub const TICKS_PER_SECOND: u64 = 0x1_0000_0000;

/// A point in time, in ticks since an arbitrary start.
#[derive(Clone, Copy, Debug, PartialEq, Eq, Structural)]
pub struct Instant {
    pub ticks: u64,
}

/// A span of time, in whole seconds and nanoseconds.
#[derive(Clone, Copy, Debug, PartialEq, Eq, Structural)]
pub struct Duration {
    pub secs: u64,
    pub nanos: u32,
}

pub open spec fn min_int(a: int, b: int) -> int {
    if a <= b {
        a
    } else {
        b
    }
}

/// The ticks in a number of whole seconds, as many as fit.
pub open spec fn ticks_of_secs(secs: u64) -> u64 {
    min_int(secs * 0x1_0000_0000, u64::MAX as int) as u64
}

/// The ticks in a span: where the seconds alone exceed the range, the largest
/// number of ticks; else the seconds exactly and the nanoseconds rounded down.
pub open spec fn ticks_of(d: Duration) -> u64 {
    if d.secs >= 0x1_0000_0000 {
        u64::MAX
    } else {
        (d.secs * 0x1_0000_0000 + d.nanos * 9223372037 / 0x8000_0000) as u64
    }
}

/// The instant that lies `ticks` after `now`, or the last one there is.
pub open spec fn instant_after(now: Instant, ticks: u64) -> Instant {
    Instant { ticks: min_int(now.ticks + ticks, u64::MAX as int) as u64 }
}

/// Reads the process-wide coarse clock with `coarsetime::Instant::recent`.
/// The value is whatever the clock was last updated to, so nothing is claimed of it.
#[verifier::external_body]
fn recent_ticks() -> (r: u64) {
    coarsetime::Instant::recent().as_ticks()
}

/// `coarsetime::Duration::from_secs`: a whole number of seconds in ticks,
/// saturating at the largest number of ticks.
#[verifier::external_body]
fn coarse_secs(secs: u64) -> (r: u64)
    ensures
        r == ticks_of_secs(secs),
{
    coarsetime::Duration::from_secs(secs).as_ticks()
}

/// `coarsetime::Duration::new`: seconds and nanoseconds in ticks. The seconds fill the
/// upper 32 bits or, where they do not fit there, all bits; the nanoseconds,
/// scaled and rounded down, fill the lower ones.
#[verifier::external_body]
fn coarse_span(secs: u64, nanos: u32) -> (r: u64)
    requires
        nanos < 1_000_000_000,
    ensures
        r == ticks_of((Duration { secs: secs, nanos: nanos })),
{
    coarsetime::Duration::new(secs, nanos).as_ticks()
}

impl Instant {
    /// The instant of the latest clock update.
    pub fn recent() -> (r: Instant) {
        Instant { ticks: recent_ticks() }
    }

    /// The instant `secs` seconds later, or the last one that can be told.
    pub fn plus_secs(&self, secs: u64) -> (r: Instant)
        ensures
            r == instant_after(*self, ticks_of_secs(secs)),
    {
        Instant { ticks: self.ticks.saturating_add(coarse_secs(secs)) }
    }

    /// The instant that lies `span` later, or the last one that can be told.
    pub fn plus(&self, span: Duration) -> (r: Instant)
        requires
            span.wf(),
        ensures
            r == instant_after(*self, ticks_of(span)),
    {
        Instant { ticks: self.ticks.saturating_add(coarse_span(span.secs, span.nanos)) }
    }

    /// Whether fewer than `secs` seconds have passed since `earlier`.
    pub fn is_within_secs_of(&self, earlier: Instant, secs: u64) -> (r: bool)
        ensures
            r == within_secs(*self, earlier, secs),
    {
        self.ticks.saturating_sub(earlier.ticks) < coarse_secs(secs)
    }
}

/// Fewer than `secs` seconds lie between `earlier` and `now`; none do where
/// `earlier` is the later one.
pub open spec fn within_secs(now: Instant, earlier: Instant, secs: u64) -> bool {
    &&& now.ticks - earlier.ticks < ticks_of_secs(secs)
    &&& 0 < ticks_of_secs(secs)
}

impl Duration {
    pub open spec fn wf(&self) -> bool {
        self.nanos < 1_000_000_000
    }

    /// The span in nanoseconds.
    pub open spec fn total(&self) -> int {
        self.secs * 1_000_000_000 + self.nanos
    }

    pub fn from_secs(secs: u64) -> (r: Duration)
        ensures
            r.wf(),
            r.total() == secs * 1_000_000_000,
            r.secs == secs,
            r.nanos == 0,
    {
        Duration { secs, nanos: 0 }
    }

    pub fn from_millis(millis: u64) -> (r: Duration)
        ensures
            r.wf(),
            r.total() == millis * 1_000_000,
    {
        Duration { secs: millis / 1000, nanos: (millis % 1000) as u32 * 1_000_000 }
    }

    /// The difference of two spans, or nothing where `other` is the longer one.
    pub fn saturating_sub(&self, other: Duration) -> (r: Duration)
        requires
            self.wf(),
            other.wf(),
        ensures
            r.wf(),
            r.total() == if self.total() >= other.total() {
                self.total() - other.total()
            } else {
                0
            },
    {
        if self.secs < other.secs {
            Duration { secs: 0, nanos: 0 }
        } else if self.nanos >= other.nanos {
            Duration { secs: self.secs - other.secs, nanos: self.nanos - other.nanos }
        } else if self.secs == other.secs {
            Duration { secs: 0, nanos: 0 }
        } else {
            Duration {
                secs: self.secs - other.secs - 1,
                nanos: self.nanos + (1_000_000_000 - other.nanos),
            }
        }
    }
}

} // verus!
