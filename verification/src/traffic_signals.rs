use crate::intersection::IntersectionID;
use crate::turn::{TurnID, TurnPriority};
use vstd::prelude::*;

verus! {

/// One phase of a signal program: a priority for every turn at the
/// intersection, and how long the phase lasts.
#[derive(Clone, Debug, PartialEq, Eq)]
pub struct Cycle {
    pub parent: IntersectionID,
    /// One entry per turn at the intersection; keys are distinct.
    pub priorities: Vec<(TurnID, TurnPriority)>,
    /// Phase duration in seconds; always positive.
    pub duration_s: u64,
}

impl Cycle {
    /// Whether the cycle has an entry for turn `t`.
    pub open spec fn spec_covers(&self, t: TurnID) -> bool {
        exists|k: int| 0 <= k < self.priorities@.len() && (#[trigger] self.priorities@[k]).0 == t
    }

    /// Whether the cycle gives turn `t` the green at full priority.
    pub open spec fn spec_gives_priority(&self, t: TurnID) -> bool {
        exists|k: int|
            0 <= k < self.priorities@.len() && (#[trigger] self.priorities@[k]) == (
            t,
            TurnPriority::Priority,
            )
    }

    /// No turn appears twice.
    pub open spec fn spec_distinct(&self) -> bool {
        forall|k1: int, k2: int|
            0 <= k1 < k2 < self.priorities@.len() ==> (#[trigger] self.priorities@[k1]).0 != (
            #[trigger] self.priorities@[k2]).0
    }
}

/// A traffic-signal policy: a nonempty ordered list of cycles.
#[derive(Clone, Debug, PartialEq, Eq)]
pub struct ControlTrafficSignal {
    pub id: IntersectionID,
    pub cycles: Vec<Cycle>,
}

impl ControlTrafficSignal {
    /// Some cycle gives turn `t` the green at full priority.
    pub open spec fn spec_some_cycle_prioritizes(&self, t: TurnID) -> bool {
        exists|c: int|
            0 <= c < self.cycles@.len() && (#[trigger] self.cycles@[c]).spec_gives_priority(t)
    }
}

} // verus!
