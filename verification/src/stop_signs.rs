use crate::intersection::IntersectionID;
use crate::turn::{TurnID, TurnPriority};
use vstd::prelude::*;

verus! {

/// A stop-sign policy: one priority per turn at its intersection.
#[derive(Clone, Debug, PartialEq, Eq)]
pub struct ControlStopSign {
    pub id: IntersectionID,
    /// One entry per turn at the intersection; keys are distinct.
    pub turns: Vec<(TurnID, TurnPriority)>,
}

impl ControlStopSign {
    /// Whether the policy has an entry for turn `t`.
    pub open spec fn spec_covers(&self, t: TurnID) -> bool {
        exists|k: int| 0 <= k < self.turns@.len() && (#[trigger] self.turns@[k]).0 == t
    }

    /// No turn appears twice.
    pub open spec fn spec_distinct(&self) -> bool {
        forall|k1: int, k2: int|
            0 <= k1 < k2 < self.turns@.len() ==> (#[trigger] self.turns@[k1]).0 != (
            #[trigger] self.turns@[k2]).0
    }

    /// The priority recorded for turn `t`.
    pub open spec fn spec_priority_of(&self, t: TurnID) -> TurnPriority {
        self.turns@[choose|k: int| 0 <= k < self.turns@.len() && (#[trigger] self.turns@[k]).0 == t].1
    }

    pub fn get_priority(&self, t: TurnID) -> (r: TurnPriority)
        requires
            self.spec_covers(t),
            self.spec_distinct(),
        ensures
            r == self.spec_priority_of(t),
    {
        let mut k: usize = 0;
        while k < self.turns.len()
            invariant
                self.spec_covers(t),
                self.spec_distinct(),
                k <= self.turns@.len(),
                forall|j: int| 0 <= j < k ==> (#[trigger] self.turns@[j]).0 != t,
            decreases self.turns@.len() - k,
        {
            if self.turns[k].0 == t {
                return self.turns[k].1;
            }
            k += 1;
        }
        proof {
            let w = choose|k: int|
                0 <= k < self.turns@.len() && (#[trigger] self.turns@[k]).0 == t;
            assert(self.turns@[w].0 != t);
        }
        TurnPriority::Stop
    }
}

} // verus!
