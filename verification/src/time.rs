//! Lengths of time and points in time, held as integers.

use std::time::SystemTime;
use vstd::prelude::*;

verus! {

/// `std::time::SystemTime`: a reading of the system clock. It is handed on
/// as it is; nothing here looks into it.
#[verifier::external_type_specification]
#[verifier::external_body]
pub struct ExSystemTime(SystemTime);

/// Nanoseconds in one second.
pub const NANOS_PER_SEC: u32 = 1_000_000_000;

/// The point that a distance from the Unix epoch stands for, in nanoseconds
/// since the epoch. The distance is `Ok` of the seconds and nanoseconds by
/// which a time lies at or after the epoch, `Err` of those by which it lies
/// before. Nanoseconds of a second or more count as the last nanosecond
/// below it, and a distance beyond the seconds that a point can hold counts
/// as the farthest point on its side.
pub open spec fn epoch_distance_nanos(distance: Result<(u64, u32), (u64, u32)>) -> int {
    match distance {
        Ok((secs, nanos)) => {
            let whole = if secs <= i64::MAX {
                secs as int
            } else {
                i64::MAX as int
            };
            let part = if nanos < NANOS_PER_SEC {
                nanos as int
            } else {
                NANOS_PER_SEC - 1
            };
            whole * 1_000_000_000 + part
        },
        Err((secs, nanos)) => {
            let part = if nanos < NANOS_PER_SEC {
                nanos as int
            } else {
                NANOS_PER_SEC - 1
            };
            if secs <= i64::MAX {
                -(secs * 1_000_000_000 + part)
            } else {
                i64::MIN * 1_000_000_000
            }
        },
    }
}

/// A non-negative length of time: whole seconds and a sub-second remainder in
/// nanoseconds, the remainder always below one second.
#[derive(Clone, Copy, Debug, PartialEq, Eq)]
pub struct Span {
    secs: u64,
    nanos: u32,
}

impl Span {
    #[verifier::type_invariant]
    spec fn well_formed(self) -> bool {
        self.nanos < NANOS_PER_SEC
    }

    /// The length in nanoseconds.
    pub closed spec fn as_nanos(self) -> nat {
        (self.secs * 1_000_000_000 + self.nanos) as nat
    }

    /// The empty span.
    pub fn zero() -> (span: Span)
        ensures
            span.as_nanos() == 0,
    {
        Span { secs: 0, nanos: 0 }
    }

    /// A span of whole seconds.
    pub fn from_secs(secs: u64) -> (span: Span)
        ensures
            span.as_nanos() == secs * 1_000_000_000,
    {
        Span { secs, nanos: 0 }
    }

    /// A span of whole milliseconds.
    pub fn from_millis(millis: u64) -> (span: Span)
        ensures
            span.as_nanos() == millis * 1_000_000,
    {
        let rest: u32 = (millis % 1000) as u32;
        Span { secs: millis / 1000, nanos: rest * 1_000_000 }
    }

    /// A span of `secs` seconds and `nanos` nanoseconds; `None` where `nanos`
    /// is a second or more.
    pub fn from_parts(secs: u64, nanos: u32) -> (span: Option<Span>)
        ensures
            span is Some <==> nanos < NANOS_PER_SEC,
            span matches Some(s) ==> s.as_nanos() == secs * 1_000_000_000 + nanos,
    {
        if nanos < NANOS_PER_SEC {
            Some(Span { secs, nanos })
        } else {
            None
        }
    }

    /// The whole seconds of the span.
    pub fn secs(&self) -> (secs: u64)
        ensures
            secs == self.as_nanos() / 1_000_000_000,
    {
        proof {
            use_type_invariant(self);
        }
        self.secs
    }

    /// What is left of the span after its whole seconds, in nanoseconds.
    pub fn subsec_nanos(&self) -> (nanos: u32)
        ensures
            nanos == self.as_nanos() % 1_000_000_000,
    {
        proof {
            use_type_invariant(self);
        }
        self.nanos
    }

    /// Whether the span is empty.
    pub fn is_zero(&self) -> (zero: bool)
        ensures
            zero == (self.as_nanos() == 0),
    {
        self.secs == 0 && self.nanos == 0
    }

    /// Whether this span is strictly shorter than `other`.
    pub fn shorter_than(&self, other: &Span) -> (shorter: bool)
        ensures
            shorter == (self.as_nanos() < other.as_nanos()),
    {
        proof {
            use_type_invariant(self);
            use_type_invariant(other);
        }
        self.secs < other.secs || (self.secs == other.secs && self.nanos < other.nanos)
    }

    /// This span less `other`, or the empty span where `other` is the longer.
    pub fn saturating_sub(&self, other: &Span) -> (rest: Span)
        ensures
            rest.as_nanos() == if self.as_nanos() >= other.as_nanos() {
                self.as_nanos() - other.as_nanos()
            } else {
                0
            },
    {
        proof {
            use_type_invariant(self);
            use_type_invariant(other);
        }
        if self.shorter_than(other) {
            Span { secs: 0, nanos: 0 }
        } else if self.nanos >= other.nanos {
            Span { secs: self.secs - other.secs, nanos: self.nanos - other.nanos }
        } else {
            Span {
                secs: self.secs - other.secs - 1,
                nanos: self.nanos + NANOS_PER_SEC - other.nanos,
            }
        }
    }
}

/// A point in time: seconds since the Unix epoch, in UTC, and a sub-second
/// remainder in nanoseconds, the remainder always below one second.
#[derive(Clone, Copy, Debug, PartialEq, Eq)]
pub struct Timestamp {
    secs: i64,
    nanos: u32,
}

impl Timestamp {
    #[verifier::type_invariant]
    spec fn well_formed(self) -> bool {
        self.nanos < NANOS_PER_SEC
    }

    /// The point in time as nanoseconds since the epoch.
    pub closed spec fn as_nanos(self) -> int {
        self.secs * 1_000_000_000 + self.nanos
    }

    /// The point `secs` seconds and `nanos` nanoseconds after the epoch;
    /// `None` where `nanos` is a second or more.
    pub fn from_parts(secs: i64, nanos: u32) -> (stamp: Option<Timestamp>)
        ensures
            stamp is Some <==> nanos < NANOS_PER_SEC,
            stamp matches Some(t) ==> t.as_nanos() == secs * 1_000_000_000 + nanos,
    {
        if nanos < NANOS_PER_SEC {
            Some(Timestamp { secs, nanos })
        } else {
            None
        }
    }

    /// The current time in UTC: what `from_epoch_distance` makes of the
    /// system clock's distance from the epoch. A clock that stands before
    /// the epoch gives a point before it. The reading is the clock's own,
    /// so nothing is promised of the point that comes back.
    pub fn now() -> Timestamp {
        let time = system_now();
        Timestamp::from_epoch_distance(since_epoch(&time))
    }

    /// The point at a distance from the Unix epoch: `Ok` of the seconds and
    /// nanoseconds by which it lies at or after the epoch, `Err` of those by
    /// which it lies before. Nanoseconds of a second or more count as the
    /// last nanosecond below it, and a distance beyond the seconds that a
    /// point can hold gives the farthest point on its side.
    pub fn from_epoch_distance(distance: Result<(u64, u32), (u64, u32)>) -> (stamp: Timestamp)
        ensures
            stamp.as_nanos() == epoch_distance_nanos(distance),
    {
        match distance {
            Ok((secs, nanos)) => {
                let whole: i64 = if secs <= i64::MAX as u64 {
                    secs as i64
                } else {
                    i64::MAX
                };
                Timestamp::from_reading(whole, nanos)
            },
            Err((secs, nanos)) => {
                if secs > i64::MAX as u64 {
                    Timestamp::from_reading(i64::MIN, 0)
                } else if nanos == 0 {
                    Timestamp::from_reading(-(secs as i64), 0)
                } else if nanos < NANOS_PER_SEC {
                    Timestamp::from_reading(-(secs as i64) - 1, NANOS_PER_SEC - nanos)
                } else {
                    Timestamp::from_reading(-(secs as i64) - 1, 1)
                }
            },
        }
    }

    /// The point that a clock's reading stands for: `secs` seconds after the
    /// epoch and `nanos` nanoseconds after that second. A reading within a
    /// leap second, whose nanoseconds are a second or more, counts as the
    /// last nanosecond before it.
    pub fn from_reading(secs: i64, nanos: u32) -> (stamp: Timestamp)
        ensures
            stamp.as_nanos() == secs * 1_000_000_000 + if nanos < NANOS_PER_SEC {
                nanos as int
            } else {
                NANOS_PER_SEC - 1
            },
    {
        if nanos < NANOS_PER_SEC {
            Timestamp { secs, nanos }
        } else {
            Timestamp { secs, nanos: NANOS_PER_SEC - 1 }
        }
    }

    /// The whole seconds since the epoch, rounded down.
    pub fn secs(&self) -> (secs: i64)
        ensures
            secs == self.as_nanos() / 1_000_000_000,
    {
        proof {
            use_type_invariant(self);
        }
        self.secs
    }

    /// The nanoseconds since the last whole second.
    pub fn subsec_nanos(&self) -> (nanos: u32)
        ensures
            nanos == self.as_nanos() % 1_000_000_000,
    {
        proof {
            use_type_invariant(self);
        }
        self.nanos
    }

    /// Whether the time from this point to `now` is strictly longer than
    /// `limit`. A `now` that lies before this point gives a negative age,
    /// which no limit is shorter than.
    pub fn older_than(&self, now: &Timestamp, limit: &Span) -> (older: bool)
        ensures
            older == (now.as_nanos() - self.as_nanos() > limit.as_nanos()),
    {
        proof {
            use_type_invariant(self);
            use_type_invariant(now);
            use_type_invariant(limit);
        }
        let age: i128 = (now.secs as i128 - self.secs as i128) * 1_000_000_000 + (now.nanos as i128
            - self.nanos as i128);
        let bound: i128 = (limit.secs as i128) * 1_000_000_000 + limit.nanos as i128;
        age > bound
    }
}

/// `SystemTime::now`: what the system clock shows. The reading is the
/// clock's own, so nothing is claimed of it.
#[verifier::external_body]
fn system_now() -> (time: SystemTime) {
    SystemTime::now()
}

/// `SystemTime::duration_since`, taken from the Unix epoch: `Ok` of the
/// distance where the time lies at or after the epoch, `Err` of it where the
/// time lies before, each as whole seconds and the nanoseconds beyond them.
/// Nothing is claimed of the numbers.
#[verifier::external_body]
fn since_epoch(time: &SystemTime) -> (distance: Result<(u64, u32), (u64, u32)>) {
    match time.duration_since(std::time::UNIX_EPOCH) {
        Ok(after) => Ok((after.as_secs(), after.subsec_nanos())),
        Err(before) => Err((before.duration().as_secs(), before.duration().subsec_nanos())),
    }
}

} // verus!
