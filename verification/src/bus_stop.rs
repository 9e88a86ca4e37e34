use crate::lane::LaneID;
use vstd::prelude::*;

verus! {

/// Dense index of a bus stop within a `Map`.
#[derive(Clone, Copy, Debug, PartialEq, Eq, Structural, PartialOrd, Ord, Hash)]
pub struct BusStopID(pub usize);

/// Dense index of a bus route within a `Map`.
#[derive(Clone, Copy, Debug, PartialEq, Eq, Structural, PartialOrd, Ord, Hash)]
pub struct BusRouteID(pub usize);

/// A transit stop snapped onto a sidewalk lane.
#[derive(Clone, Copy, Debug, PartialEq, Eq, Structural, Hash)]
pub struct BusStop {
    pub id: BusStopID,
    /// The GTFS stop this came from.
    pub gtfs_stop_id: u64,
    /// The sidewalk lane hosting the stop.
    pub sidewalk: LaneID,
    /// Distance along that lane, in millimetres.
    pub dist_along_mm: u64,
}

/// A transit route: an ordered list of stops.
#[derive(Clone, Debug, PartialEq, Eq)]
pub struct BusRoute {
    pub id: BusRouteID,
    pub name: String,
    /// Stops in GTFS order.
    pub stops: Vec<BusStopID>,
}

} // verus!
