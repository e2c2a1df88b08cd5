//! Monotonic clock readings and spans of time, in nanoseconds.
use vstd::prelude::*;

verus! {

/// A span of time.
#[derive(Clone, Copy, Debug, PartialEq, Eq, Structural)]
pub struct Elapsed {
    pub nanos: u128,
}

impl Elapsed {
    pub fn zero() -> (d: Elapsed)
        ensures
            d.nanos == 0,
    {
        Elapsed { nanos: 0 }
    }

    pub fn from_secs(secs: u64) -> (d: Elapsed)
        ensures
            d.nanos == secs * 1_000_000_000,
    {
        Elapsed { nanos: secs as u128 * 1_000_000_000 }
    }

    pub fn from_millis(millis: u64) -> (d: Elapsed)
        ensures
            d.nanos == millis * 1_000_000,
    {
        Elapsed { nanos: millis as u128 * 1_000_000 }
    }

    pub fn from_nanos(nanos: u64) -> (d: Elapsed)
        ensures
            d.nanos == nanos,
    {
        Elapsed { nanos: nanos as u128 }
    }

    pub fn as_nanos(&self) -> (n: u128)
        ensures
            n == self.nanos,
    {
        self.nanos
    }

    /// Whole seconds.
    pub fn as_secs(&self) -> (s: u128)
        ensures
            s == self.nanos / 1_000_000_000,
    {
        self.nanos / 1_000_000_000
    }
}

/// A reading of a monotonic clock, in nanoseconds from an arbitrary origin.
#[derive(Clone, Copy, Debug, PartialEq, Eq, Structural)]
pub struct Timestamp {
    pub nanos: u128,
}

impl Timestamp {
    pub fn from_nanos(nanos: u128) -> (t: Timestamp)
        ensures
            t.nanos == nanos,
    {
        Timestamp { nanos }
    }

    /// The time from `earlier` to `self`, or `None` where `earlier` is later.
    pub fn checked_duration_since(&self, earlier: Timestamp) -> (d: Option<Elapsed>)
        ensures
            d == (if self.nanos >= earlier.nanos {
                Some(Elapsed { nanos: (self.nanos - earlier.nanos) as u128 })
            } else {
                None
            }),
    {
        if self.nanos >= earlier.nanos {
            Some(Elapsed { nanos: self.nanos - earlier.nanos })
        } else {
            None
        }
    }

    /// The reading `d` later, or `None` where it does not fit.
    pub fn checked_add(&self, d: Elapsed) -> (t: Option<Timestamp>)
        ensures
            t == (if self.nanos + d.nanos <= u128::MAX {
                Some(Timestamp { nanos: (self.nanos + d.nanos) as u128 })
            } else {
                None
            }),
    {
        if self.nanos <= u128::MAX - d.nanos {
            Some(Timestamp { nanos: self.nanos + d.nanos })
        } else {
            None
        }
    }
}

} // verus!
