//! Lengths of time.
use vstd::prelude::*;

verus! {

/// A length of time with nanosecond precision.
#[derive(Debug, Clone, Copy, PartialEq, Eq, Structural)]
pub struct Interval {
    secs: u64,
    subsec_nanos: u32,
}

impl Interval {
    #[verifier::type_invariant]
    spec fn well_formed(self) -> bool {
        self.subsec_nanos < 1_000_000_000
    }

    /// The length in nanoseconds.
    pub closed spec fn nanos(self) -> nat {
        (self.secs * 1_000_000_000 + self.subsec_nanos) as nat
    }

    /// A whole number of seconds.
    pub fn from_secs(secs: u64) -> (r: Interval)
        ensures
            r.nanos() == secs * 1_000_000_000,
    {
        Interval { secs, subsec_nanos: 0 }
    }

    /// A whole number of milliseconds.
    pub fn from_millis(millis: u64) -> (r: Interval)
        ensures
            r.nanos() == millis * 1_000_000,
    {
        Interval { secs: millis / 1_000, subsec_nanos: ((millis % 1_000) * 1_000_000) as u32 }
    }

    /// A whole number of microseconds.
    pub fn from_micros(micros: u64) -> (r: Interval)
        ensures
            r.nanos() == micros * 1_000,
    {
        Interval {
            secs: micros / 1_000_000,
            subsec_nanos: ((micros % 1_000_000) * 1_000) as u32,
        }
    }

    /// A whole number of nanoseconds.
    pub fn from_nanos(nanos: u64) -> (r: Interval)
        ensures
            r.nanos() == nanos,
    {
        Interval { secs: nanos / 1_000_000_000, subsec_nanos: (nanos % 1_000_000_000) as u32 }
    }

    /// The length in nanoseconds.
    pub fn as_nanos(&self) -> (r: u128)
        ensures
            r == self.nanos(),
    {
        self.secs as u128 * 1_000_000_000 + self.subsec_nanos as u128
    }

    /// The whole seconds of this length.
    pub fn as_secs(&self) -> (r: u64)
        ensures
            r == self.nanos() / 1_000_000_000,
    {
        proof {
            use_type_invariant(self);
        }
        self.secs
    }

    /// The nanoseconds beyond the whole seconds.
    pub fn subsec_nanos(&self) -> (r: u32)
        ensures
            r == self.nanos() % 1_000_000_000,
    {
        proof {
            use_type_invariant(self);
        }
        self.subsec_nanos
    }

    /// The shorter of two lengths.
    pub fn min(self, other: Interval) -> (r: Interval)
        ensures
            r == (if self.nanos() <= other.nanos() {
                self
            } else {
                other
            }),
    {
        if self.as_nanos() <= other.as_nanos() {
            self
        } else {
            other
        }
    }
}

} // verus!
