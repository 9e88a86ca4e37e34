use crate::intersection::IntersectionID;
use crate::lane::LaneID;
use vstd::prelude::*;

verus! {

/// A turn is identified by the lane it leaves, the lane it enters, and the
/// intersection it crosses.
#[derive(Clone, Copy, Debug, PartialEq, Eq, Structural, PartialOrd, Ord, Hash)]
pub struct TurnID {
    pub parent: IntersectionID,
    pub src: LaneID,
    pub dst: LaneID,
}

/// The shape of a turn.
#[derive(Clone, Copy, Debug, PartialEq, Eq, Structural, Hash)]
pub enum TurnType {
    Straight,
    Right,
    Left,
    Crosswalk,
    SharedSidewalkCorner,
}

/// How a control policy treats one turn.
#[derive(Clone, Copy, Debug, PartialEq, Eq, Structural, Hash)]
pub enum TurnPriority {
    Priority,
    Yield,
    Stop,
    Banned,
}

/// A connector between two lanes at an intersection.
#[derive(Clone, Copy, Debug, PartialEq, Eq, Structural, Hash)]
pub struct Turn {
    pub id: TurnID,
    pub turn_type: TurnType,
    /// Arc length of the turn's geometry, in millimetres.
    pub length_mm: u64,
}

impl Turn {
    /// Pedestrian turns connect sidewalks; every other turn is a vehicle turn.
    pub open spec fn spec_between_sidewalks(&self) -> bool {
        self.turn_type is Crosswalk || self.turn_type is SharedSidewalkCorner
    }

    #[verifier::when_used_as_spec(spec_between_sidewalks)]
    pub fn between_sidewalks(&self) -> (r: bool)
        ensures
            r == self.spec_between_sidewalks(),
    {
        matches!(self.turn_type, TurnType::Crosswalk | TurnType::SharedSidewalkCorner)
    }
}

} // verus!
