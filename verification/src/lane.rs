use vstd::prelude::*;

verus! {

/// Length of one parking spot, in millimetres (8 m).
pub const PARKING_SPOT_LENGTH_MM: u64 = 8000;

/// Dense index of a lane within a `Map`.
#[derive(Clone, Copy, Debug, PartialEq, Eq, Structural, PartialOrd, Ord, Hash)]
pub struct LaneID(pub usize);

/// What kind of traffic a lane carries.
#[derive(Clone, Copy, Debug, PartialEq, Eq, Structural, Hash)]
pub enum LaneType {
    Driving,
    Parking,
    Sidewalk,
    Biking,
    Bus,
}

/// A single linear traffic channel belonging to a road.
#[derive(Clone, Copy, Debug, PartialEq, Eq, Structural, Hash)]
pub struct Lane {
    pub id: LaneID,
    /// The road that owns this lane.
    pub parent: crate::road::RoadID,
    pub lane_type: LaneType,
    /// Arc length of the lane's centerline, in millimetres.
    pub length_mm: u64,
    /// Intersection the lane starts at.
    pub src_i: crate::intersection::IntersectionID,
    /// Intersection the lane ends at.
    pub dst_i: crate::intersection::IntersectionID,
}

impl Lane {
    pub open spec fn spec_is_parking(&self) -> bool {
        self.lane_type is Parking
    }

    #[verifier::when_used_as_spec(spec_is_parking)]
    pub fn is_parking(&self) -> (r: bool)
        ensures
            r == self.spec_is_parking(),
    {
        matches!(self.lane_type, LaneType::Parking)
    }

    pub open spec fn spec_is_sidewalk(&self) -> bool {
        self.lane_type is Sidewalk
    }

    #[verifier::when_used_as_spec(spec_is_sidewalk)]
    pub fn is_sidewalk(&self) -> (r: bool)
        ensures
            r == self.spec_is_sidewalk(),
    {
        matches!(self.lane_type, LaneType::Sidewalk)
    }

    /// How many parking spots fit along this lane: one per full spot
    /// length, and none at all on a lane that is not a parking lane.
    pub open spec fn spec_number_parking_spots(&self) -> int {
        if self.lane_type is Parking {
            self.length_mm as int / PARKING_SPOT_LENGTH_MM as int
        } else {
            0
        }
    }

    pub fn number_parking_spots(&self) -> (n: u64)
        ensures
            n == self.spec_number_parking_spots(),
    {
        if self.is_parking() {
            self.length_mm / PARKING_SPOT_LENGTH_MM
        } else {
            0
        }
    }
}

} // verus!
