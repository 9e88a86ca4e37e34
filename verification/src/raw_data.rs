use crate::error::MapError;
use crate::geometry::{spec_coord_ok, spec_points_ok};
use vstd::prelude::*;
use vstd::utf8::is_ascii_chars;

verus! {

/// An OSM point: projected position plus sampled ground elevation.
#[derive(Clone, Copy, Debug, PartialEq, Eq, Structural, Hash)]
pub struct RawNode {
    pub osm_node_id: u64,
    pub x_mm: u64,
    pub y_mm: u64,
    pub elevation_mm: i64,
}

/// An OSM way that is a road candidate: its tags and node references.
#[derive(Clone, Debug, PartialEq, Eq)]
pub struct RawWay {
    pub osm_way_id: u64,
    pub osm_tags: Vec<(String, String)>,
    /// OSM node ids, in way order.
    pub nodes: Vec<u64>,
}

/// A closed outline from OSM: a building footprint or a named area.
#[derive(Clone, Debug, PartialEq, Eq)]
pub struct RawShape {
    pub osm_way_id: u64,
    pub osm_tags: Vec<(String, String)>,
    pub points: Vec<(u64, u64)>,
}

/// A parcel outline from the shape files.
#[derive(Clone, Debug, PartialEq, Eq)]
pub struct RawParcel {
    pub points: Vec<(u64, u64)>,
}

/// An attributed line from the shape files (e.g. a parking blockface).
#[derive(Clone, Debug, PartialEq, Eq)]
pub struct RawAttrShape {
    pub attributes: Vec<(String, String)>,
    pub points: Vec<(u64, u64)>,
}

/// A GTFS stop, already projected.
#[derive(Clone, Copy, Debug, PartialEq, Eq, Structural, Hash)]
pub struct RawBusStop {
    pub gtfs_stop_id: u64,
    pub x_mm: u64,
    pub y_mm: u64,
}

/// A GTFS route: its name and ordered stop references.
#[derive(Clone, Debug, PartialEq, Eq)]
pub struct RawBusRoute {
    pub name: String,
    pub stops: Vec<u64>,
}

/// Everything conversion needs, read fully before it starts: OSM data,
/// shape files, the GTFS feed, and the traffic-signal point list. The I/O
/// shell that fills this in lives outside this crate.
#[derive(Clone, Debug, PartialEq, Eq)]
pub struct RawMap {
    pub name: String,
    /// Sorted strictly by OSM node id.
    pub nodes: Vec<RawNode>,
    /// Sorted strictly by OSM way id.
    pub ways: Vec<RawWay>,
    /// Sorted strictly by OSM way id.
    pub buildings: Vec<RawShape>,
    /// Sorted strictly by OSM way id.
    pub areas: Vec<RawShape>,
    pub parcels: Vec<RawParcel>,
    pub shapes: Vec<RawAttrShape>,
    /// Sorted strictly by GTFS stop id.
    pub bus_stops: Vec<RawBusStop>,
    pub bus_routes: Vec<RawBusRoute>,
    /// OSM node ids carrying a traffic signal.
    pub traffic_signal_nodes: Vec<u64>,
}

/// Whether every string in a tag list is ASCII (the canonical encodings
/// require it).
pub open spec fn spec_tags_ascii(tags: Seq<(String, String)>) -> bool {
    forall|i: int|
        0 <= i < tags.len() ==> is_ascii_chars((#[trigger] tags[i]).0@) && is_ascii_chars(
            tags[i].1@,
        )
}

impl RawMap {
    /// Local shape of the input: ordering, ranges, sizes, character set.
    pub open spec fn spec_shape_ok(&self) -> bool {
        &&& is_ascii_chars(self.name@)
        &&& forall|i: int|
            0 <= i < self.nodes@.len() - 1 ==> (#[trigger] self.nodes@[i]).osm_node_id < self.nodes@[
                i + 1
            ].osm_node_id
        &&& forall|i: int|
            0 <= i < self.nodes@.len() ==> spec_coord_ok(
                (#[trigger] self.nodes@[i]).x_mm,
                self.nodes@[i].y_mm,
            )
        &&& forall|i: int|
            0 <= i < self.ways@.len() - 1 ==> (#[trigger] self.ways@[i]).osm_way_id < self.ways@[
                i + 1
            ].osm_way_id
        &&& self.ways@.len() <= 100000
        &&& forall|i: int|
            0 <= i < self.ways@.len() ==> {
                let w = #[trigger] self.ways@[i];
                &&& 2 <= w.nodes@.len() <= 2000
                &&& spec_tags_ascii(w.osm_tags@)
            }
        &&& forall|i: int|
            0 <= i < self.buildings@.len() ==> {
                let b = #[trigger] self.buildings@[i];
                &&& 3 <= b.points@.len() <= 10000
                &&& spec_points_ok(b.points@)
                &&& spec_tags_ascii(b.osm_tags@)
            }
        &&& forall|i: int|
            0 <= i < self.areas@.len() ==> {
                let a = #[trigger] self.areas@[i];
                &&& 3 <= a.points@.len() <= 10000
                &&& spec_points_ok(a.points@)
                &&& spec_tags_ascii(a.osm_tags@)
            }
        &&& forall|i: int|
            0 <= i < self.parcels@.len() ==> {
                let p = #[trigger] self.parcels@[i];
                &&& 3 <= p.points@.len() <= 10000
                &&& spec_points_ok(p.points@)
            }
        &&& forall|i: int|
            0 <= i < self.shapes@.len() ==> {
                let s = #[trigger] self.shapes@[i];
                &&& 2 <= s.points@.len() <= 10000
                &&& spec_points_ok(s.points@)
                &&& spec_tags_ascii(s.attributes@)
            }
        &&& forall|i: int|
            0 <= i < self.bus_stops@.len() - 1 ==> (
            #[trigger] self.bus_stops@[i]).gtfs_stop_id < self.bus_stops@[i + 1].gtfs_stop_id
        &&& forall|i: int|
            0 <= i < self.bus_stops@.len() ==> spec_coord_ok(
                (#[trigger] self.bus_stops@[i]).x_mm,
                self.bus_stops@[i].y_mm,
            )
        &&& forall|i: int|
            0 <= i < self.bus_routes@.len() ==> {
                let r = #[trigger] self.bus_routes@[i];
                &&& 1 <= r.stops@.len() <= 10000
                &&& is_ascii_chars(r.name@)
            }
    }

    /// Whether some raw node carries this OSM id.
    pub open spec fn spec_has_node(&self, nid: u64) -> bool {
        exists|j: int| 0 <= j < self.nodes@.len() && (#[trigger] self.nodes@[j]).osm_node_id == nid
    }

    /// Whether some raw bus stop carries this GTFS id.
    pub open spec fn spec_has_stop(&self, sid: u64) -> bool {
        exists|j: int|
            0 <= j < self.bus_stops@.len() && (#[trigger] self.bus_stops@[j]).gtfs_stop_id == sid
    }

    /// Cross-file references: every way node and every route stop resolves.
    pub open spec fn spec_refs_ok(&self) -> bool {
        &&& forall|i: int, k: int|
            0 <= i < self.ways@.len() && 0 <= k < self.ways@[i].nodes@.len()
                ==> self.spec_has_node(#[trigger] self.ways@[i].nodes@[k])
        &&& forall|i: int, k: int|
            0 <= i < self.bus_routes@.len() && 0 <= k < self.bus_routes@[i].stops@.len()
                ==> self.spec_has_stop(#[trigger] self.bus_routes@[i].stops@[k])
    }
}

/// Find the raw node with this OSM id.
pub fn find_node(nodes: &Vec<RawNode>, nid: u64) -> (r: Option<usize>)
    ensures
        match r {
            Some(j) => j < nodes@.len() && nodes@[j as int].osm_node_id == nid,
            None => forall|j: int|
                0 <= j < nodes@.len() ==> (#[trigger] nodes@[j]).osm_node_id != nid,
        },
{
    let mut j: usize = 0;
    while j < nodes.len()
        invariant
            j <= nodes@.len(),
            forall|k: int| 0 <= k < j ==> (#[trigger] nodes@[k]).osm_node_id != nid,
        decreases nodes@.len() - j,
    {
        if nodes[j].osm_node_id == nid {
            return Some(j);
        }
        j += 1;
    }
    None
}

fn tags_ascii(tags: &Vec<(String, String)>) -> (r: bool)
    ensures
        r == spec_tags_ascii(tags@),
{
    let mut i: usize = 0;
    while i < tags.len()
        invariant
            i <= tags@.len(),
            forall|j: int|
                0 <= j < i ==> is_ascii_chars((#[trigger] tags@[j]).0@) && is_ascii_chars(
                    tags@[j].1@,
                ),
        decreases tags@.len() - i,
    {
        if !tags[i].0.as_str().is_ascii() || !tags[i].1.as_str().is_ascii() {
            return false;
        }
        i += 1;
    }
    true
}

/// Check a raw map before conversion. Succeeds exactly when the input's
/// shape is right and every cross-file reference resolves; a shape fault is
/// `InputMalformed`, a dangling reference `Inconsistent`.
pub fn check_raw(raw: &RawMap) -> (r: Result<(), MapError>)
    ensures
        r is Ok <==> raw.spec_shape_ok() && raw.spec_refs_ok(),
        r matches Err(e) ==> ((e matches MapError::InputMalformed(_) <==> !raw.spec_shape_ok()) && (
        e matches MapError::Inconsistent(_) <==> raw.spec_shape_ok() && !raw.spec_refs_ok())),
{
    if !check_shape(raw) {
        return Err(MapError::InputMalformed("raw input fails local checks".to_owned()));
    }
    if !check_refs(raw) {
        return Err(MapError::Inconsistent("raw input has dangling references".to_owned()));
    }
    Ok(())
}

fn check_shape(raw: &RawMap) -> (r: bool)
    ensures
        r == raw.spec_shape_ok(),
{
    if !raw.name.as_str().is_ascii() {
        return false;
    }
    if raw.ways.len() > 100000 {
        return false;
    }
    let mut i: usize = 0;
    while i < raw.nodes.len()
        invariant
            i <= raw.nodes@.len(),
            forall|j: int|
                0 <= j < i && j < raw.nodes@.len() - 1 ==> (#[trigger] raw.nodes@[j]).osm_node_id
                    < raw.nodes@[j + 1].osm_node_id,
            forall|j: int|
                0 <= j < i ==> spec_coord_ok((#[trigger] raw.nodes@[j]).x_mm, raw.nodes@[j].y_mm),
        decreases raw.nodes@.len() - i,
    {
        if i + 1 < raw.nodes.len() && raw.nodes[i].osm_node_id >= raw.nodes[i + 1].osm_node_id {
            return false;
        }
        if raw.nodes[i].x_mm > crate::geometry::COORD_LIMIT_MM || raw.nodes[i].y_mm
            > crate::geometry::COORD_LIMIT_MM {
            return false;
        }
        i += 1;
    }
    let mut i: usize = 0;
    while i < raw.ways.len()
        invariant
            i <= raw.ways@.len(),
            forall|j: int|
                0 <= j < i && j < raw.ways@.len() - 1 ==> (#[trigger] raw.ways@[j]).osm_way_id
                    < raw.ways@[j + 1].osm_way_id,
            forall|j: int|
                0 <= j < i ==> {
                    let w = #[trigger] raw.ways@[j];
                    &&& 2 <= w.nodes@.len() <= 2000
                    &&& spec_tags_ascii(w.osm_tags@)
                },
        decreases raw.ways@.len() - i,
    {
        if i + 1 < raw.ways.len() && raw.ways[i].osm_way_id >= raw.ways[i + 1].osm_way_id {
            return false;
        }
        if raw.ways[i].nodes.len() < 2 || raw.ways[i].nodes.len() > 2000 {
            return false;
        }
        if !tags_ascii(&raw.ways[i].osm_tags) {
            return false;
        }
        i += 1;
    }
    let mut i: usize = 0;
    while i < raw.buildings.len()
        invariant
            i <= raw.buildings@.len(),
            forall|j: int|
                0 <= j < i ==> {
                    let b = #[trigger] raw.buildings@[j];
                    &&& 3 <= b.points@.len() <= 10000
                    &&& spec_points_ok(b.points@)
                    &&& spec_tags_ascii(b.osm_tags@)
                },
        decreases raw.buildings@.len() - i,
    {
        if raw.buildings[i].points.len() < 3 || raw.buildings[i].points.len() > 10000 {
            return false;
        }
        if !points_ok(&raw.buildings[i].points) {
            return false;
        }
        if !tags_ascii(&raw.buildings[i].osm_tags) {
            return false;
        }
        i += 1;
    }
    let mut i: usize = 0;
    while i < raw.areas.len()
        invariant
            i <= raw.areas@.len(),
            forall|j: int|
                0 <= j < i ==> {
                    let a = #[trigger] raw.areas@[j];
                    &&& 3 <= a.points@.len() <= 10000
                    &&& spec_points_ok(a.points@)
                    &&& spec_tags_ascii(a.osm_tags@)
                },
        decreases raw.areas@.len() - i,
    {
        if raw.areas[i].points.len() < 3 || raw.areas[i].points.len() > 10000 {
            return false;
        }
        if !points_ok(&raw.areas[i].points) {
            return false;
        }
        if !tags_ascii(&raw.areas[i].osm_tags) {
            return false;
        }
        i += 1;
    }
    let mut i: usize = 0;
    while i < raw.parcels.len()
        invariant
            i <= raw.parcels@.len(),
            forall|j: int|
                0 <= j < i ==> {
                    let p = #[trigger] raw.parcels@[j];
                    &&& 3 <= p.points@.len() <= 10000
                    &&& spec_points_ok(p.points@)
                },
        decreases raw.parcels@.len() - i,
    {
        if raw.parcels[i].points.len() < 3 || raw.parcels[i].points.len() > 10000 {
            return false;
        }
        if !points_ok(&raw.parcels[i].points) {
            return false;
        }
        i += 1;
    }
    let mut i: usize = 0;
    while i < raw.shapes.len()
        invariant
            i <= raw.shapes@.len(),
            forall|j: int|
                0 <= j < i ==> {
                    let s = #[trigger] raw.shapes@[j];
                    &&& 2 <= s.points@.len() <= 10000
                    &&& spec_points_ok(s.points@)
                    &&& spec_tags_ascii(s.attributes@)
                },
        decreases raw.shapes@.len() - i,
    {
        if raw.shapes[i].points.len() < 2 || raw.shapes[i].points.len() > 10000 {
            return false;
        }
        if !points_ok(&raw.shapes[i].points) {
            return false;
        }
        if !tags_ascii(&raw.shapes[i].attributes) {
            return false;
        }
        i += 1;
    }
    let mut i: usize = 0;
    while i < raw.bus_stops.len()
        invariant
            i <= raw.bus_stops@.len(),
            forall|j: int|
                0 <= j < i && j < raw.bus_stops@.len() - 1 ==> (
                #[trigger] raw.bus_stops@[j]).gtfs_stop_id < raw.bus_stops@[j + 1].gtfs_stop_id,
            forall|j: int|
                0 <= j < i ==> spec_coord_ok(
                    (#[trigger] raw.bus_stops@[j]).x_mm,
                    raw.bus_stops@[j].y_mm,
                ),
        decreases raw.bus_stops@.len() - i,
    {
        if i + 1 < raw.bus_stops.len() && raw.bus_stops[i].gtfs_stop_id >= raw.bus_stops[i
            + 1].gtfs_stop_id {
            return false;
        }
        if raw.bus_stops[i].x_mm > crate::geometry::COORD_LIMIT_MM || raw.bus_stops[i].y_mm
            > crate::geometry::COORD_LIMIT_MM {
            return false;
        }
        i += 1;
    }
    let mut i: usize = 0;
    while i < raw.bus_routes.len()
        invariant
            i <= raw.bus_routes@.len(),
            forall|j: int|
                0 <= j < i ==> {
                    let r = #[trigger] raw.bus_routes@[j];
                    &&& 1 <= r.stops@.len() <= 10000
                    &&& is_ascii_chars(r.name@)
                },
        decreases raw.bus_routes@.len() - i,
    {
        if raw.bus_routes[i].stops.len() < 1 || raw.bus_routes[i].stops.len() > 10000 {
            return false;
        }
        if !raw.bus_routes[i].name.as_str().is_ascii() {
            return false;
        }
        i += 1;
    }
    true
}

fn points_ok(pts: &Vec<(u64, u64)>) -> (r: bool)
    ensures
        r == spec_points_ok(pts@),
{
    let mut i: usize = 0;
    while i < pts.len()
        invariant
            i <= pts@.len(),
            forall|j: int| 0 <= j < i ==> spec_coord_ok((#[trigger] pts@[j]).0, pts@[j].1),
        decreases pts@.len() - i,
    {
        if pts[i].0 > crate::geometry::COORD_LIMIT_MM || pts[i].1
            > crate::geometry::COORD_LIMIT_MM {
            return false;
        }
        i += 1;
    }
    true
}

fn check_refs(raw: &RawMap) -> (r: bool)
    ensures
        r == raw.spec_refs_ok(),
{
    let mut i: usize = 0;
    while i < raw.ways.len()
        invariant
            i <= raw.ways@.len(),
            forall|j: int, k: int|
                0 <= j < i && 0 <= k < raw.ways@[j].nodes@.len() ==> raw.spec_has_node(
                    #[trigger] raw.ways@[j].nodes@[k],
                ),
        decreases raw.ways@.len() - i,
    {
        let mut k: usize = 0;
        while k < raw.ways[i].nodes.len()
            invariant
                i < raw.ways@.len(),
                k <= raw.ways@[i as int].nodes@.len(),
                forall|j: int, k2: int|
                    0 <= j < i && 0 <= k2 < raw.ways@[j].nodes@.len() ==> raw.spec_has_node(
                        #[trigger] raw.ways@[j].nodes@[k2],
                    ),
                forall|k2: int|
                    0 <= k2 < k ==> raw.spec_has_node(#[trigger] raw.ways@[i as int].nodes@[k2]),
            decreases raw.ways@[i as int].nodes@.len() - k,
        {
            if find_node(&raw.nodes, raw.ways[i].nodes[k]).is_none() {
                return false;
            }
            k += 1;
        }
        i += 1;
    }
    let mut i: usize = 0;
    while i < raw.bus_routes.len()
        invariant
            forall|j: int, k: int|
                0 <= j < raw.ways@.len() && 0 <= k < raw.ways@[j].nodes@.len()
                    ==> raw.spec_has_node(#[trigger] raw.ways@[j].nodes@[k]),
            i <= raw.bus_routes@.len(),
            forall|j: int, k: int|
                0 <= j < i && 0 <= k < raw.bus_routes@[j].stops@.len() ==> raw.spec_has_stop(
                    #[trigger] raw.bus_routes@[j].stops@[k],
                ),
        decreases raw.bus_routes@.len() - i,
    {
        let mut k: usize = 0;
        while k < raw.bus_routes[i].stops.len()
            invariant
                i < raw.bus_routes@.len(),
                k <= raw.bus_routes@[i as int].stops@.len(),
                forall|j: int, k2: int|
                    0 <= j < i && 0 <= k2 < raw.bus_routes@[j].stops@.len() ==> raw.spec_has_stop(
                        #[trigger] raw.bus_routes@[j].stops@[k2],
                    ),
                forall|k2: int|
                    0 <= k2 < k ==> raw.spec_has_stop(
                        #[trigger] raw.bus_routes@[i as int].stops@[k2],
                    ),
            decreases raw.bus_routes@[i as int].stops@.len() - k,
        {
            if find_stop(&raw.bus_stops, raw.bus_routes[i].stops[k]).is_none() {
                return false;
            }
            k += 1;
        }
        i += 1;
    }
    true
}

/// Find the raw bus stop with this GTFS id.
pub fn find_stop(stops: &Vec<RawBusStop>, sid: u64) -> (r: Option<usize>)
    ensures
        match r {
            Some(j) => j < stops@.len() && stops@[j as int].gtfs_stop_id == sid,
            None => forall|j: int|
                0 <= j < stops@.len() ==> (#[trigger] stops@[j]).gtfs_stop_id != sid,
        },
{
    let mut j: usize = 0;
    while j < stops.len()
        invariant
            j <= stops@.len(),
            forall|k: int| 0 <= k < j ==> (#[trigger] stops@[k]).gtfs_stop_id != sid,
        decreases stops@.len() - j,
    {
        if stops[j].gtfs_stop_id == sid {
            return Some(j);
        }
        j += 1;
    }
    None
}

} // verus!
