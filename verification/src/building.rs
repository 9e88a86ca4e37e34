use crate::lane::LaneID;
use vstd::prelude::*;

verus! {

/// Dense index of a building within a `Map`.
#[derive(Clone, Copy, Debug, PartialEq, Eq, Structural, PartialOrd, Ord, Hash)]
pub struct BuildingID(pub usize);

/// The path from a building's footprint to its nearest sidewalk.
#[derive(Clone, Copy, Debug, PartialEq, Eq, Structural, Hash)]
pub struct FrontPath {
    /// The sidewalk lane the path reaches.
    pub sidewalk: LaneID,
    /// Where along that lane the path lands, in millimetres.
    pub dist_along_mm: u64,
}

/// A building footprint snapped from raw data.
#[derive(Clone, Debug, PartialEq, Eq)]
pub struct Building {
    pub id: BuildingID,
    /// The OSM way the footprint came from.
    pub osm_way_id: u64,
    /// OSM tags, sorted by key so iteration order is reproducible.
    pub osm_tags: Vec<(String, String)>,
    /// Footprint centroid, in millimetres.
    pub x_mm: u64,
    pub y_mm: u64,
    pub front_path: FrontPath,
}

} // verus!
