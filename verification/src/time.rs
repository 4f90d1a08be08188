//! Points in time and spans of time, to the nanosecond.
//!
//! Nothing here reads a clock: the time is always an argument.

use vstd::prelude::*;

verus! {

/// A span of time.
#[derive(Clone, Copy, Debug, PartialEq, Eq, Structural)]
pub struct Duration {
    nanos: u128,
}

/// A point in time, counted from the Unix epoch.
#[derive(Clone, Copy, Debug, PartialEq, Eq, Structural)]
pub struct Timestamp {
    nanos: i128,
}

/// The longest span, and one nanosecond more.
pub open spec fn duration_limit() -> nat {
    0x1_0000_0000_0000_0000 * 1_000_000_000
}

impl Duration {
    #[verifier::type_invariant]
    pub open spec fn wf(&self) -> bool {
        self@ < duration_limit()
    }

    /// The length in nanoseconds.
    pub closed spec fn view(&self) -> nat {
        self.nanos as nat
    }

    /// A span of whole seconds and nanoseconds.
    pub fn new(secs: u64, nanos: u32) -> (r: Duration)
        requires
            secs * 1_000_000_000 + nanos < duration_limit(),
        ensures
            r@ == secs * 1_000_000_000 + nanos,
    {
        Duration { nanos: secs as u128 * 1_000_000_000 + nanos as u128 }
    }

    pub fn from_secs(secs: u64) -> (r: Duration)
        ensures
            r@ == secs * 1_000_000_000,
    {
        Duration { nanos: secs as u128 * 1_000_000_000 }
    }

    pub fn from_hours(hours: u64) -> (r: Duration)
        requires
            hours * 3600 <= u64::MAX,
        ensures
            r@ == hours * 3_600_000_000_000,
    {
        Duration { nanos: hours as u128 * 3_600_000_000_000 }
    }
}

impl Timestamp {
    /// Nanoseconds since the Unix epoch; negative before it.
    pub closed spec fn view(&self) -> int {
        self.nanos as int
    }

    pub fn from_nanos(nanos: i128) -> (r: Timestamp)
        ensures
            r@ == nanos,
    {
        Timestamp { nanos }
    }

    pub fn as_nanos(&self) -> (r: i128)
        ensures
            r == self@,
    {
        self.nanos
    }

    /// The time that lies `span` later.
    pub fn after(&self, span: Duration) -> (r: Timestamp)
        requires
            self@ + span@ <= i128::MAX,
        ensures
            r@ == self@ + span@,
    {
        proof {
            use_type_invariant(&span);
        }
        Timestamp { nanos: self.nanos + span.nanos as i128 }
    }

    /// Whether `self` is at most `window` after `earlier`, and not before it.
    pub fn is_within(&self, earlier: Timestamp, window: Duration) -> (r: bool)
        ensures
            r == (0 <= self@ - earlier@ <= window@),
    {
        if self.nanos < earlier.nanos {
            return false;
        }
        if earlier.nanos >= 0 || self.nanos < 0 {
            (self.nanos - earlier.nanos) as u128 <= window.nanos
        } else {
            // From a negative time to a positive one.
            let before: u128 = (-(earlier.nanos + 1)) as u128 + 1;
            before + self.nanos as u128 <= window.nanos
        }
    }

    /// Whether `self` is more than `window` after `earlier`.
    pub fn is_beyond(&self, earlier: Timestamp, window: Duration) -> (r: bool)
        ensures
            r == (self@ - earlier@ > window@),
    {
        self.nanos >= earlier.nanos && !self.is_within(earlier, window)
    }
}

} // verus!
