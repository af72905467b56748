//! Modification times, as the engine compares them.

use vstd::prelude::*;

verus! {

/// A moment, counted from the Unix epoch: whole seconds, and the nanoseconds
/// within the second.
#[derive(Clone, Copy, Debug, PartialEq, Eq, Structural)]
pub struct Timestamp {
    pub secs: i64,
    pub nanos: u32,
}

impl Timestamp {
    /// Whether `self` is strictly later than `other`.
    pub open spec fn newer_than(self, other: Timestamp) -> bool {
        self.secs > other.secs || (self.secs == other.secs && self.nanos > other.nanos)
    }

    /// A moment from its seconds and nanoseconds.
    pub fn new(secs: i64, nanos: u32) -> (t: Timestamp)
        ensures
            t.secs == secs,
            t.nanos == nanos,
    {
        Timestamp { secs, nanos }
    }

    /// The Unix epoch itself.
    pub fn epoch() -> (t: Timestamp)
        ensures
            t == (Timestamp { secs: 0, nanos: 0 }),
    {
        Timestamp { secs: 0, nanos: 0 }
    }

    /// Whether `self` is strictly later than `other`.
    pub fn is_newer_than(&self, other: &Timestamp) -> (r: bool)
        ensures
            r == self.newer_than(*other),
    {
        self.secs > other.secs || (self.secs == other.secs && self.nanos > other.nanos)
    }
}

/// Of two distinct moments one is the later: times are totally ordered.
pub proof fn lemma_newer_total(a: Timestamp, b: Timestamp)
    ensures
        a == b || a.newer_than(b) || b.newer_than(a),
        !(a.newer_than(b) && b.newer_than(a)),
        !a.newer_than(a),
{
}

} // verus!
