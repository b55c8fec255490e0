//! Points in time, counted in nanoseconds from the Unix epoch.

use vstd::prelude::*;

verus! {

/// An absolute point in time: nanoseconds since the Unix epoch, negative
/// before it.
#[derive(Clone, Copy, Debug, PartialEq, Eq, Structural, Hash)]
pub struct Timestamp {
    pub nanos: i128,
}

impl View for Timestamp {
    type V = int;

    /// The nanoseconds since the epoch, as a mathematical integer.
    open spec fn view(&self) -> int {
        self.nanos as int
    }
}

impl Timestamp {
    /// The point in time `nanos` nanoseconds after the epoch.
    pub fn from_nanos(nanos: i128) -> (t: Timestamp)
        ensures
            t.nanos == nanos,
    {
        Timestamp { nanos }
    }

    /// The nanoseconds since the epoch.
    pub fn nanos(self) -> (n: i128)
        ensures
            n == self.nanos,
    {
        self.nanos
    }

    /// The nanoseconds from `earlier` to `self`, and zero where `self` is not
    /// after `earlier`.
    pub open spec fn spec_nanos_since(self, earlier: Timestamp) -> int {
        if self@ > earlier@ {
            self@ - earlier@
        } else {
            0
        }
    }

    /// The time that has to pass from `earlier` until `self`, in nanoseconds.
    /// A point that is not after `earlier` is no time away: the result is
    /// clamped to zero and never negative.
    pub fn nanos_since(self, earlier: Timestamp) -> (n: u128)
        ensures
            n == self.spec_nanos_since(earlier),
    {
        if self.nanos <= earlier.nanos {
            0
        } else if earlier.nanos >= 0 || self.nanos < 0 {
            let gap: i128 = self.nanos - earlier.nanos;
            gap as u128
        } else {
            let ahead: u128 = self.nanos as u128;
            let behind: u128 = (-(earlier.nanos + 1)) as u128;
            ahead + behind + 1
        }
    }
}

} // verus!
