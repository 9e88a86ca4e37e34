use crate::road::RoadID;
use vstd::prelude::*;

verus! {

/// Dense index of an intersection within a `Map`.
#[derive(Clone, Copy, Debug, PartialEq, Eq, Structural, PartialOrd, Ord, Hash)]
pub struct IntersectionID(pub usize);

/// How traffic through the intersection is controlled.
#[derive(Clone, Copy, Debug, PartialEq, Eq, Structural, Hash)]
pub enum IntersectionType {
    StopSign,
    TrafficSignal,
    Border,
}

/// A meeting point of road segments.
#[derive(Clone, Debug, PartialEq, Eq)]
pub struct Intersection {
    pub id: IntersectionID,
    /// The OSM node this intersection came from.
    pub osm_node_id: u64,
    /// Position, in millimetres.
    pub x_mm: u64,
    pub y_mm: u64,
    /// Ground elevation sampled at the node, in millimetres.
    pub elevation_mm: i64,
    /// Every road whose src or dst is this intersection, sorted ascending.
    pub roads: Vec<RoadID>,
    pub intersection_type: IntersectionType,
}

} // verus!
