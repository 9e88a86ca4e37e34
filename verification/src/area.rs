use vstd::prelude::*;

verus! {

/// Dense index of an area within a `Map`.
#[derive(Clone, Copy, Debug, PartialEq, Eq, Structural, PartialOrd, Ord, Hash)]
pub struct AreaID(pub usize);

/// What an area represents.
#[derive(Clone, Copy, Debug, PartialEq, Eq, Structural, Hash)]
pub enum AreaType {
    Park,
    Water,
    Wood,
}

/// A named region (park, water, ...) taken from raw polygons.
#[derive(Clone, Debug, PartialEq, Eq)]
pub struct Area {
    pub id: AreaID,
    pub area_type: AreaType,
    /// The OSM way the outline came from.
    pub osm_way_id: u64,
    /// OSM tags, sorted by key so iteration order is reproducible.
    pub osm_tags: Vec<(String, String)>,
    /// Outline vertices, in millimetres.
    pub points: Vec<(u64, u64)>,
}

} // verus!
