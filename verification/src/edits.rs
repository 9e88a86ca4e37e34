use crate::bus_stop::{BusRoute, BusRouteID, BusStop, BusStopID};
use crate::building::{Building, BuildingID};
use crate::error::MapError;
use crate::intersection::{Intersection, IntersectionID, IntersectionType};
use crate::lane::{Lane, LaneID, LaneType};
use crate::map::RoadMap;
use crate::raw_data::RawMap;
use vstd::prelude::*;

verus! {

/// An overlay of user edits: per-lane type changes and per-intersection
/// control changes. Applying it never mutates the base map; it produces a
/// fresh derived map.
#[derive(Clone, Debug, PartialEq, Eq)]
pub struct MapEdits {
    pub edits_name: String,
    /// Lane type replacements; the first entry for a lane wins.
    pub lane_overrides: Vec<(LaneID, LaneType)>,
    /// Control replacements; the first entry for an intersection wins. A
    /// replacement control is regenerated as the default program of the
    /// requested kind.
    pub intersection_overrides: Vec<(IntersectionID, IntersectionType)>,
}

impl MapEdits {
    pub open spec fn spec_is_empty(&self) -> bool {
        self.lane_overrides@.len() == 0 && self.intersection_overrides@.len() == 0
    }

    /// A fresh, empty edit set.
    pub fn new(edits_name: &str) -> (e: MapEdits)
        ensures
            e.spec_is_empty(),
            e.edits_name@ == edits_name@,
    {
        MapEdits {
            edits_name: edits_name.to_owned(),
            lane_overrides: Vec::new(),
            intersection_overrides: Vec::new(),
        }
    }
}

/// The lane type a lane ends up with: the first override for it, else its
/// base type.
pub open spec fn spec_effective_lane_type(
    overrides: Seq<(LaneID, LaneType)>,
    id: LaneID,
    base: LaneType,
) -> LaneType
    decreases overrides.len(),
{
    if overrides.len() == 0 {
        base
    } else if overrides[0].0 == id {
        overrides[0].1
    } else {
        spec_effective_lane_type(overrides.drop_first(), id, base)
    }
}

fn effective_lane_type(overrides: &Vec<(LaneID, LaneType)>, id: LaneID, base: LaneType) -> (r:
    LaneType)
    ensures
        r == spec_effective_lane_type(overrides@, id, base),
{
    let mut k: usize = 0;
    proof {
        assert(overrides@.skip(0) =~= overrides@);
    }
    while k < overrides.len()
        invariant
            k <= overrides@.len(),
            forall|j: int| 0 <= j < k ==> (#[trigger] overrides@[j]).0 != id,
            spec_effective_lane_type(overrides@, id, base) == spec_effective_lane_type(
                overrides@.skip(k as int),
                id,
                base,
            ),
        decreases overrides@.len() - k,
    {
        if overrides[k].0 == id {
            proof {
                assert(overrides@.skip(k as int)[0] == overrides@[k as int]);
            }
            return overrides[k].1;
        }
        proof {
            assert(overrides@.skip(k as int)[0] == overrides@[k as int]);
            assert(overrides@.skip(k as int).drop_first() =~= overrides@.skip(k + 1));
        }
        k += 1;
    }
    proof {
        assert(overrides@.skip(overrides@.len() as int).len() == 0);
    }
    base
}

/// The control kind an intersection ends up with. A `Border` request is
/// ignored: border intersections carry no control policy.
pub open spec fn spec_effective_int_type(
    overrides: Seq<(IntersectionID, IntersectionType)>,
    id: IntersectionID,
    base: IntersectionType,
) -> IntersectionType
    decreases overrides.len(),
{
    if overrides.len() == 0 {
        base
    } else if overrides[0].0 == id && !(overrides[0].1 is Border) {
        overrides[0].1
    } else {
        spec_effective_int_type(overrides.drop_first(), id, base)
    }
}

fn effective_int_type(
    overrides: &Vec<(IntersectionID, IntersectionType)>,
    id: IntersectionID,
    base: IntersectionType,
) -> (r: IntersectionType)
    ensures
        r == spec_effective_int_type(overrides@, id, base),
{
    let mut k: usize = 0;
    proof {
        assert(overrides@.skip(0) =~= overrides@);
    }
    while k < overrides.len()
        invariant
            k <= overrides@.len(),
            spec_effective_int_type(overrides@, id, base) == spec_effective_int_type(
                overrides@.skip(k as int),
                id,
                base,
            ),
        decreases overrides@.len() - k,
    {
        proof {
            assert(overrides@.skip(k as int)[0] == overrides@[k as int]);
            assert(overrides@.skip(k as int).drop_first() =~= overrides@.skip(k + 1));
        }
        if overrides[k].0 == id && !matches!(overrides[k].1, IntersectionType::Border) {
            return overrides[k].1;
        }
        k += 1;
    }
    proof {
        assert(overrides@.skip(overrides@.len() as int).len() == 0);
    }
    base
}

/// The final control kind after applying the overlay: a `Border` base is
/// treated as a stop sign (border intersections never carry a program
/// after an edit), then the first non-`Border` override wins.
pub open spec fn spec_applied_int_type(
    overrides: Seq<(IntersectionID, IntersectionType)>,
    id: IntersectionID,
    base: IntersectionType,
) -> IntersectionType {
    let b = if base is Border {
        IntersectionType::StopSign
    } else {
        base
    };
    let t = spec_effective_int_type(overrides, id, b);
    if t is Border {
        IntersectionType::StopSign
    } else {
        t
    }
}

impl RoadMap {
    /// Apply an edit overlay: replace lane types and control kinds, then
    /// re-derive everything that depends on them (turns, control
    /// programs, bus stops, routes and building front paths on lanes that
    /// are no longer sidewalks). The base map is consumed, never aliased;
    /// an empty edit set returns it unchanged.
    pub fn apply_edits(self, edits: &MapEdits) -> (r: RoadMap)
        requires
            self.wf(),
        ensures
            r.wf(),
            edits.spec_is_empty() ==> r == self,
            !edits.spec_is_empty() ==> {
                &&& r.roads@ == self.roads@
                &&& r.parcels@ == self.parcels@
                &&& r.areas@ == self.areas@
                &&& r.extra_shapes@ == self.extra_shapes@
                &&& r.bounds == self.bounds
                &&& r.lanes@.len() == self.lanes@.len()
                &&& forall|j: int|
                    0 <= j < self.lanes@.len() ==> {
                        let l = #[trigger] r.lanes@[j];
                        let b = self.lanes@[j];
                        &&& l.id == b.id
                        &&& l.parent == b.parent
                        &&& l.length_mm == b.length_mm
                        &&& l.src_i == b.src_i
                        &&& l.dst_i == b.dst_i
                        &&& l.lane_type == spec_effective_lane_type(
                            edits.lane_overrides@,
                            b.id,
                            b.lane_type,
                        )
                    }
                &&& r.intersections@.len() == self.intersections@.len()
                &&& forall|i: int|
                    0 <= i < self.intersections@.len() ==> {
                        let n = #[trigger] r.intersections@[i];
                        let b = self.intersections@[i];
                        &&& n.id == b.id
                        &&& n.osm_node_id == b.osm_node_id
                        &&& n.x_mm == b.x_mm
                        &&& n.y_mm == b.y_mm
                        &&& n.elevation_mm == b.elevation_mm
                        &&& n.roads@ == b.roads@
                        &&& n.intersection_type == spec_applied_int_type(
                            edits.intersection_overrides@,
                            b.id,
                            b.intersection_type,
                        )
                    }
                &&& crate::make::spec_turns_exact(
                    r.turns@,
                    r.lanes@,
                    r.roads@,
                    r.intersections@.len() as int,
                )
                &&& r.bus_stops@.len() <= self.bus_stops@.len()
                &&& forall|b2: int|
                    0 <= b2 < self.bus_stops@.len() ==> {
                        let st = #[trigger] self.bus_stops@[b2];
                        r.lanes@[st.sidewalk.0 as int].lane_type is Sidewalk ==> exists|nb: int|
                            0 <= nb < r.bus_stops@.len() && (
                            #[trigger] r.bus_stops@[nb]).gtfs_stop_id == st.gtfs_stop_id
                                && r.bus_stops@[nb].sidewalk == st.sidewalk && r.bus_stops@[
                                nb
                            ].dist_along_mm == st.dist_along_mm
                    }
            },
    {
        if edits.lane_overrides.len() == 0 && edits.intersection_overrides.len() == 0 {
            return self;
        }
        let mut new_lanes: Vec<Lane> = Vec::new();
        let mut j: usize = 0;
        while j < self.lanes.len()
            invariant
                self.wf(),
                j <= self.lanes@.len(),
                new_lanes@.len() == j,
                forall|j2: int|
                    0 <= j2 < j ==> {
                        let l = #[trigger] new_lanes@[j2];
                        let b = self.lanes@[j2];
                        &&& l.id == b.id
                        &&& l.parent == b.parent
                        &&& l.length_mm == b.length_mm
                        &&& l.src_i == b.src_i
                        &&& l.dst_i == b.dst_i
                        &&& l.lane_type == spec_effective_lane_type(
                            edits.lane_overrides@,
                            b.id,
                            b.lane_type,
                        )
                    },
            decreases self.lanes@.len() - j,
        {
            let base = self.lanes[j];
            let lt = effective_lane_type(&edits.lane_overrides, base.id, base.lane_type);
            new_lanes.push(Lane { lane_type: lt, ..base });
            j += 1;
        }
        let mut new_ints: Vec<Intersection> = Vec::new();
        let mut i: usize = 0;
        while i < self.intersections.len()
            invariant
                self.wf(),
                i <= self.intersections@.len(),
                new_ints@.len() == i,
                forall|i2: int|
                    0 <= i2 < i ==> {
                        let n = #[trigger] new_ints@[i2];
                        let b = self.intersections@[i2];
                        &&& n.id == b.id
                        &&& n.osm_node_id == b.osm_node_id
                        &&& n.x_mm == b.x_mm
                        &&& n.y_mm == b.y_mm
                        &&& n.elevation_mm == b.elevation_mm
                        &&& n.roads@ == b.roads@
                        &&& (n.intersection_type is StopSign
                            || n.intersection_type is TrafficSignal)
                        &&& n.intersection_type == spec_applied_int_type(
                            edits.intersection_overrides@,
                            b.id,
                            b.intersection_type,
                        )
                    },
            decreases self.intersections@.len() - i,
        {
            let base = &self.intersections[i];
            let base_type = if matches!(base.intersection_type, IntersectionType::Border) {
                IntersectionType::StopSign
            } else {
                base.intersection_type
            };
            let ty = effective_int_type(&edits.intersection_overrides, base.id, base_type);
            let ty = if matches!(ty, IntersectionType::Border) {
                IntersectionType::StopSign
            } else {
                ty
            };
            new_ints.push(
                Intersection {
                    id: base.id,
                    osm_node_id: base.osm_node_id,
                    x_mm: base.x_mm,
                    y_mm: base.y_mm,
                    elevation_mm: base.elevation_mm,
                    roads: crate::make::copy_road_ids(&base.roads),
                    intersection_type: ty,
                },
            );
            i += 1;
        }
        proof {
            assert(crate::make::spec_roads_lanes_ok(
                self.roads@,
                new_lanes@,
                new_ints@.len() as int,
            ));
        }
        let turns = crate::make::make_turns(&new_lanes, &self.roads, new_ints.len());
        proof {
            assert forall|j1: int, j2: int|
                0 <= j1 < j2 < turns@.len() implies (#[trigger] turns@[j1]).id != (
            #[trigger] turns@[j2]).id by {
                assert(crate::make::spec_tid_lt(turns@[j1].id, turns@[j2].id));
            }
        }
        let (stop_signs, traffic_signals) = crate::make::make_controls(
            &new_ints,
            &turns,
            &new_lanes,
        );
        let mut stop_map: Vec<Option<BusStopID>> = Vec::new();
        let mut new_stops: Vec<BusStop> = Vec::new();
        let mut b: usize = 0;
        while b < self.bus_stops.len()
            invariant
                self.wf(),
                new_lanes@.len() == self.lanes@.len(),
                forall|j2: int|
                    0 <= j2 < new_lanes@.len() ==> (#[trigger] new_lanes@[j2]).length_mm
                        == self.lanes@[j2].length_mm,
                b <= self.bus_stops@.len(),
                stop_map@.len() == b,
                new_stops@.len() <= b,
                forall|b2: int|
                    0 <= b2 < new_stops@.len() ==> {
                        let st = #[trigger] new_stops@[b2];
                        &&& st.id.0 == b2
                        &&& st.sidewalk.0 < new_lanes@.len()
                        &&& new_lanes@[st.sidewalk.0 as int].lane_type is Sidewalk
                        &&& st.dist_along_mm <= new_lanes@[st.sidewalk.0 as int].length_mm
                    },
                forall|b2: int|
                    0 <= b2 < b ==> ((#[trigger] stop_map@[b2]) matches Some(nid) ==> nid.0
                        < new_stops@.len()),
                forall|b2: int|
                    0 <= b2 < b ==> {
                        let st = self.bus_stops@[b2];
                        (#[trigger] stop_map@[b2]) is Some <==> new_lanes@[
                            st.sidewalk.0 as int
                        ].lane_type is Sidewalk
                    },
                forall|b2: int|
                    0 <= b2 < b ==> ((#[trigger] stop_map@[b2]) matches Some(nid) ==> {
                        let st = self.bus_stops@[b2];
                        &&& new_stops@[nid.0 as int].gtfs_stop_id == st.gtfs_stop_id
                        &&& new_stops@[nid.0 as int].sidewalk == st.sidewalk
                        &&& new_stops@[nid.0 as int].dist_along_mm == st.dist_along_mm
                    }),
            decreases self.bus_stops@.len() - b,
        {
            let st = self.bus_stops[b];
            if new_lanes[st.sidewalk.0].is_sidewalk() {
                let nid = BusStopID(new_stops.len());
                new_stops.push(
                    BusStop {
                        id: nid,
                        gtfs_stop_id: st.gtfs_stop_id,
                        sidewalk: st.sidewalk,
                        dist_along_mm: st.dist_along_mm,
                    },
                );
                stop_map.push(Some(nid));
            } else {
                stop_map.push(None);
            }
            b += 1;
        }
        let mut new_routes: Vec<BusRoute> = Vec::new();
        let mut rix: usize = 0;
        while rix < self.bus_routes.len()
            invariant
                self.wf(),
                stop_map@.len() == self.bus_stops@.len(),
                forall|b2: int|
                    0 <= b2 < stop_map@.len() ==> ((#[trigger] stop_map@[b2]) matches Some(nid)
                        ==> nid.0 < new_stops@.len()),
                rix <= self.bus_routes@.len(),
                forall|b2: int|
                    0 <= b2 < new_routes@.len() ==> {
                        let rt = #[trigger] new_routes@[b2];
                        &&& rt.id.0 == b2
                        &&& rt.stops@.len() >= 1
                        &&& forall|k2: int|
                            0 <= k2 < rt.stops@.len() ==> (#[trigger] rt.stops@[k2]).0
                                < new_stops@.len()
                    },
            decreases self.bus_routes@.len() - rix,
        {
            let route = &self.bus_routes[rix];
            let mut resolved: Vec<BusStopID> = Vec::new();
            let mut ok = true;
            let mut k2: usize = 0;
            while k2 < route.stops.len()
                invariant
                    self.wf(),
                    rix < self.bus_routes@.len(),
                    route == self.bus_routes@[rix as int],
                    stop_map@.len() == self.bus_stops@.len(),
                    forall|b2: int|
                        0 <= b2 < stop_map@.len() ==> ((#[trigger] stop_map@[b2]) matches Some(
                        nid) ==> nid.0 < new_stops@.len()),
                    k2 <= route.stops@.len(),
                    ok ==> resolved@.len() == k2,
                    forall|k3: int|
                        0 <= k3 < resolved@.len() ==> (#[trigger] resolved@[k3]).0
                            < new_stops@.len(),
                decreases route.stops@.len() - k2,
            {
                let old_id = route.stops[k2];
                match stop_map[old_id.0] {
                    Some(nid) => {
                        resolved.push(nid);
                    },
                    None => {
                        ok = false;
                    },
                }
                k2 += 1;
            }
            if ok && resolved.len() >= 1 {
                new_routes.push(
                    BusRoute {
                        id: BusRouteID(new_routes.len()),
                        name: route.name.clone(),
                        stops: resolved,
                    },
                );
            }
            rix += 1;
        }
        let mut new_buildings: Vec<Building> = Vec::new();
        let mut b: usize = 0;
        while b < self.buildings.len()
            invariant
                self.wf(),
                new_lanes@.len() == self.lanes@.len(),
                forall|j2: int|
                    0 <= j2 < new_lanes@.len() ==> (#[trigger] new_lanes@[j2]).length_mm
                        == self.lanes@[j2].length_mm,
                b <= self.buildings@.len(),
                forall|b2: int|
                    0 <= b2 < new_buildings@.len() ==> {
                        let bl = #[trigger] new_buildings@[b2];
                        &&& bl.id.0 == b2
                        &&& bl.front_path.sidewalk.0 < new_lanes@.len()
                        &&& new_lanes@[bl.front_path.sidewalk.0 as int].lane_type is Sidewalk
                        &&& bl.front_path.dist_along_mm <= new_lanes@[
                            bl.front_path.sidewalk.0 as int
                        ].length_mm
                    },
            decreases self.buildings@.len() - b,
        {
            let bl = &self.buildings[b];
            if new_lanes[bl.front_path.sidewalk.0].is_sidewalk() {
                new_buildings.push(
                    Building {
                        id: BuildingID(new_buildings.len()),
                        osm_way_id: bl.osm_way_id,
                        osm_tags: crate::make::clone_tags(&bl.osm_tags),
                        x_mm: bl.x_mm,
                        y_mm: bl.y_mm,
                        front_path: bl.front_path,
                    },
                );
            }
            b += 1;
        }
        let m = RoadMap {
            roads: self.roads,
            lanes: new_lanes,
            intersections: new_ints,
            turns,
            buildings: new_buildings,
            parcels: self.parcels,
            areas: self.areas,
            extra_shapes: self.extra_shapes,
            bus_stops: new_stops,
            bus_routes: new_routes,
            stop_signs,
            traffic_signals,
            bounds: self.bounds,
        };
        proof {
            assert(m.wf_dense_ids());
            assert(m.wf_roads());
            assert(m.wf_lanes());
            assert(m.wf_intersections());
            assert(m.wf_turns());
            assert forall|s: int|
                0 <= s < m.stop_signs@.len() implies m.spec_stop_sign_consistent(
                #[trigger] m.stop_signs@[s],
            ) by {
                assert(crate::make::spec_ss_ok(m.stop_signs@[s], m.intersections@, m.turns@));
            }
            assert(m.wf_stop_signs());
            assert forall|g: int|
                0 <= g < m.traffic_signals@.len() implies m.spec_signal_consistent(
                #[trigger] m.traffic_signals@[g],
            ) by {
                assert(crate::make::spec_ts_ok(m.traffic_signals@[g], m.intersections@, m.turns@));
            }
            assert(m.wf_traffic_signals());
            assert(m.wf_bus());
            assert(m.wf_buildings());
            assert forall|b2: int|
                0 <= b2 < self.bus_stops@.len() && m.lanes@[(
                #[trigger] self.bus_stops@[b2]).sidewalk.0 as int].lane_type is Sidewalk implies exists|
                nb: int,
            |
                0 <= nb < m.bus_stops@.len() && (#[trigger] m.bus_stops@[nb]).gtfs_stop_id
                    == self.bus_stops@[b2].gtfs_stop_id && m.bus_stops@[nb].sidewalk
                    == self.bus_stops@[b2].sidewalk && m.bus_stops@[nb].dist_along_mm
                    == self.bus_stops@[b2].dist_along_mm by {
                assert(stop_map@[b2] is Some);
                let nid = stop_map@[b2].unwrap();
                assert(m.bus_stops@[nid.0 as int].gtfs_stop_id == self.bus_stops@[
                    b2
                ].gtfs_stop_id);
            }
        }
        m
    }

    /// Build a map from raw input with an edit overlay applied: the
    /// converted network with every lane's final type equal to the first
    /// matching override applied to the type its road's tags fabricate,
    /// and the turn set re-derived exactly for those final types.
    pub fn new(raw: &RawMap, edits: &MapEdits) -> (r: Result<RoadMap, MapError>)
        ensures
            r is Ok <==> raw.spec_shape_ok() && raw.spec_refs_ok(),
            r matches Ok(m) ==> m.wf(),
            r matches Ok(m) ==> crate::make::spec_turns_exact(
                m.turns@,
                m.lanes@,
                m.roads@,
                m.intersections@.len() as int,
            ),
            r matches Ok(m) ==> forall|i: int|
                0 <= i < m.roads@.len() ==> exists|w: int|
                    0 <= w < raw.ways@.len() && (#[trigger] raw.ways@[w]).osm_way_id == (
                    #[trigger] m.roads@[i]).osm_way_id && m.roads@[i].osm_tags@ == raw.ways@[
                        w
                    ].osm_tags@,
            r matches Ok(m) ==> forall|j: int|
                0 <= j < raw.nodes@.len() && crate::make::spec_is_int_node(
                    *raw,
                    (#[trigger] raw.nodes@[j]).osm_node_id,
                ) ==> exists|k: int|
                    0 <= k < m.intersections@.len() && (
                    #[trigger] m.intersections@[k]).osm_node_id == raw.nodes@[j].osm_node_id,
            r matches Ok(m) ==> forall|i: int, k: int|
                0 <= i < m.roads@.len() && 0 <= k < m.roads@[i].children_forwards@.len()
                    ==> m.lanes@[((#[trigger] m.roads@[i].children_forwards@[k])).0 as int].lane_type
                    == spec_effective_lane_type(
                    edits.lane_overrides@,
                    m.roads@[i].children_forwards@[k],
                    crate::make::spec_fwd_lanes(m.roads@[i].osm_tags@)[k],
                ),
            r matches Ok(m) ==> forall|i: int, k: int|
                0 <= i < m.roads@.len() && 0 <= k < m.roads@[i].children_backwards@.len()
                    ==> m.lanes@[((#[trigger] m.roads@[i].children_backwards@[k])).0 as int].lane_type
                    == spec_effective_lane_type(
                    edits.lane_overrides@,
                    m.roads@[i].children_backwards@[k],
                    crate::make::spec_back_lanes(m.roads@[i].osm_tags@)[k],
                ),
    {
        match crate::make::convert(raw) {
            Ok(base) => {
                let ghost base0 = base;
                let m = base.apply_edits(edits);
                proof {
                    assert forall|j: int|
                        0 <= j < raw.nodes@.len() && crate::make::spec_is_int_node(
                            *raw,
                            (#[trigger] raw.nodes@[j]).osm_node_id,
                        ) implies exists|k: int|
                        0 <= k < m.intersections@.len() && (
                        #[trigger] m.intersections@[k]).osm_node_id
                            == raw.nodes@[j].osm_node_id by {
                        let k0 = choose|k: int|
                            0 <= k < base0.intersections@.len() && (
                            #[trigger] base0.intersections@[k]).osm_node_id == raw.nodes@[
                                j
                            ].osm_node_id;
                        assert(m.intersections@[k0].osm_node_id == base0.intersections@[
                            k0
                        ].osm_node_id);
                    }
                    if edits.spec_is_empty() {
                        assert(m == base0);
                        assert forall|j: int|
                            0 <= j < m.lanes@.len() implies #[trigger] m.lanes@[j].lane_type
                            == spec_effective_lane_type(
                            edits.lane_overrides@,
                            m.lanes@[j].id,
                            base0.lanes@[j].lane_type,
                        ) by {
                            assert(edits.lane_overrides@.len() == 0);
                        }
                    }
                    assert forall|i: int, k: int|
                        0 <= i < m.roads@.len() && 0 <= k
                            < m.roads@[i].children_forwards@.len() implies m.lanes@[((
                    #[trigger] m.roads@[i].children_forwards@[k])).0 as int].lane_type
                        == spec_effective_lane_type(
                        edits.lane_overrides@,
                        m.roads@[i].children_forwards@[k],
                        crate::make::spec_fwd_lanes(m.roads@[i].osm_tags@)[k],
                    ) by {
                        let lid = m.roads@[i].children_forwards@[k];
                        assert(base0.roads@[i] == m.roads@[i]);
                        crate::make::lemma_lanes_before_mono(
                            m.roads@,
                            i + 1,
                            m.roads@.len() as int,
                        );
                        assert(lid.0 < m.lanes@.len());
                        assert(m.lanes@[lid.0 as int].id.0 == lid.0);
                        assert(base0.lanes@[lid.0 as int].lane_type
                            == crate::make::spec_fwd_lanes(base0.roads@[i].osm_tags@)[k]);
                        assert(base0.lanes@[lid.0 as int].id == lid);
                    }
                    assert forall|i: int, k: int|
                        0 <= i < m.roads@.len() && 0 <= k
                            < m.roads@[i].children_backwards@.len() implies m.lanes@[((
                    #[trigger] m.roads@[i].children_backwards@[k])).0 as int].lane_type
                        == spec_effective_lane_type(
                        edits.lane_overrides@,
                        m.roads@[i].children_backwards@[k],
                        crate::make::spec_back_lanes(m.roads@[i].osm_tags@)[k],
                    ) by {
                        let lid = m.roads@[i].children_backwards@[k];
                        assert(base0.roads@[i] == m.roads@[i]);
                        crate::make::lemma_lanes_before_mono(
                            m.roads@,
                            i + 1,
                            m.roads@.len() as int,
                        );
                        assert(lid.0 < m.lanes@.len());
                        assert(m.lanes@[lid.0 as int].id.0 == lid.0);
                        assert(base0.lanes@[lid.0 as int].lane_type
                            == crate::make::spec_back_lanes(base0.roads@[i].osm_tags@)[k]);
                        assert(base0.lanes@[lid.0 as int].id == lid);
                    }
                }
                Ok(m)
            },
            Err(e) => Err(e),
        }
    }
}

} // verus!
