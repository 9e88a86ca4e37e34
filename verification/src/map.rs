use crate::area::{Area, AreaID};
use crate::building::{Building, BuildingID};
use crate::bus_stop::{BusRoute, BusStop, BusStopID};
use crate::extra_shape::{ExtraShape, ExtraShapeID};
use crate::intersection::{Intersection, IntersectionID, IntersectionType};
use crate::lane::{Lane, LaneID, LaneType};
use crate::parcel::{Parcel, ParcelID};
use crate::road::{Road, RoadID};
use crate::stop_signs::ControlStopSign;
use crate::traffic_signals::ControlTrafficSignal;
use crate::turn::{Turn, TurnID, TurnPriority};
use vstd::prelude::*;

verus! {

/// Axis-aligned bounding box of the world, in millimetres.
#[derive(Clone, Copy, Debug, PartialEq, Eq, Structural, Hash)]
pub struct Bounds {
    pub min_x_mm: u64,
    pub min_y_mm: u64,
    pub max_x_mm: u64,
    pub max_y_mm: u64,
}

/// How many lanes the roads strictly before road `n` own in total. Lane ids
/// are handed out densely in this order, so road `n`'s first lane id is
/// exactly this number.
pub open spec fn lanes_before(roads: Seq<Road>, n: int) -> int
    decreases n,
{
    if n <= 0 {
        0
    } else {
        lanes_before(roads, n - 1) + roads[n - 1].children_forwards@.len()
            + roads[n - 1].children_backwards@.len()
    }
}

/// The entity store: dense vectors for every entity kind, plus the canonical
/// control policy per intersection. Logically immutable once constructed;
/// edits produce a fresh `RoadMap`.
#[derive(Clone, Debug, PartialEq, Eq)]
pub struct RoadMap {
    pub roads: Vec<Road>,
    pub lanes: Vec<Lane>,
    pub intersections: Vec<Intersection>,
    pub turns: Vec<Turn>,
    pub buildings: Vec<Building>,
    pub parcels: Vec<Parcel>,
    pub areas: Vec<Area>,
    pub extra_shapes: Vec<ExtraShape>,
    pub bus_stops: Vec<BusStop>,
    pub bus_routes: Vec<BusRoute>,
    pub stop_signs: Vec<ControlStopSign>,
    pub traffic_signals: Vec<ControlTrafficSignal>,
    pub bounds: Bounds,
}

impl RoadMap {
    /// Whether a turn with this id exists in the store.
    pub open spec fn spec_has_turn(&self, t: TurnID) -> bool {
        exists|j: int| 0 <= j < self.turns@.len() && (#[trigger] self.turns@[j]).id == t
    }

    /// The stored turn with id `t`.
    pub open spec fn spec_turn(&self, t: TurnID) -> Turn {
        self.turns@[choose|j: int| 0 <= j < self.turns@.len() && (#[trigger] self.turns@[j]).id == t]
    }

    /// Every entity vector is densely indexed by its own id.
    pub open spec fn wf_dense_ids(&self) -> bool {
        &&& forall|i: int| 0 <= i < self.roads@.len() ==> (#[trigger] self.roads@[i]).id.0 == i
        &&& forall|i: int| 0 <= i < self.lanes@.len() ==> (#[trigger] self.lanes@[i]).id.0 == i
        &&& forall|i: int|
            0 <= i < self.intersections@.len() ==> (#[trigger] self.intersections@[i]).id.0 == i
        &&& forall|i: int|
            0 <= i < self.buildings@.len() ==> (#[trigger] self.buildings@[i]).id.0 == i
        &&& forall|i: int| 0 <= i < self.parcels@.len() ==> (#[trigger] self.parcels@[i]).id.0 == i
        &&& forall|i: int| 0 <= i < self.areas@.len() ==> (#[trigger] self.areas@[i]).id.0 == i
        &&& forall|i: int|
            0 <= i < self.extra_shapes@.len() ==> (#[trigger] self.extra_shapes@[i]).id.0 == i
        &&& forall|i: int|
            0 <= i < self.bus_stops@.len() ==> (#[trigger] self.bus_stops@[i]).id.0 == i
        &&& forall|i: int|
            0 <= i < self.bus_routes@.len() ==> (#[trigger] self.bus_routes@[i]).id.0 == i
    }

    /// Roads reference intersections and lanes that resolve; a road owns at
    /// least one lane; its forward lanes run src -> dst and its backward
    /// lanes dst -> src; lane ids are handed out densely, forward
    /// outside-to-inside then backward, road by road.
    pub open spec fn wf_roads(&self) -> bool {
        &&& self.lanes@.len() == lanes_before(self.roads@, self.roads@.len() as int)
        &&& forall|i: int|
            0 <= i < self.roads@.len() ==> {
                let r = #[trigger] self.roads@[i];
                &&& r.src_i.0 < self.intersections@.len()
                &&& r.dst_i.0 < self.intersections@.len()
                &&& r.children_forwards@.len() + r.children_backwards@.len() >= 1
                &&& 2 <= r.center_pts@.len() <= 2000
                &&& crate::geometry::spec_points_ok(r.center_pts@)
                &&& r.length_mm > 0
                &&& r.length_mm == crate::geometry::spec_polyline_len(
                    r.center_pts@,
                    r.center_pts@.len() as int,
                )
                &&& forall|k: int|
                    0 <= k < r.children_forwards@.len()
                        ==> (#[trigger] r.children_forwards@[k]).0 == lanes_before(self.roads@, i)
                        + k
                &&& forall|k: int|
                    0 <= k < r.children_backwards@.len()
                        ==> (#[trigger] r.children_backwards@[k]).0 == lanes_before(self.roads@, i)
                        + r.children_forwards@.len() + k
            }
    }

    /// Every lane resolves its parent road (which lists it) and its two
    /// endpoint intersections, and has positive length.
    pub open spec fn wf_lanes(&self) -> bool {
        forall|j: int|
            0 <= j < self.lanes@.len() ==> {
                let l = #[trigger] self.lanes@[j];
                &&& l.parent.0 < self.roads@.len()
                &&& self.roads@[l.parent.0 as int].spec_contains_lane(l.id)
                &&& l.src_i.0 < self.intersections@.len()
                &&& l.dst_i.0 < self.intersections@.len()
                &&& l.length_mm > 0
                &&& l.length_mm == self.roads@[l.parent.0 as int].length_mm
            }
    }

    /// An intersection's road list holds exactly the roads incident to it,
    /// sorted strictly ascending.
    pub open spec fn wf_intersections(&self) -> bool {
        forall|i: int|
            0 <= i < self.intersections@.len() ==> {
                let node = #[trigger] self.intersections@[i];
                &&& forall|k: int|
                    0 <= k < node.roads@.len() ==> {
                        let rid = #[trigger] node.roads@[k];
                        &&& rid.0 < self.roads@.len()
                        &&& (self.roads@[rid.0 as int].src_i.0 == i || self.roads@[
                            rid.0 as int
                        ].dst_i.0 == i)
                    }
                &&& forall|r: int|
                    0 <= r < self.roads@.len() && ((#[trigger] self.roads@[r]).src_i.0 == i
                        || self.roads@[r].dst_i.0 == i) ==> node.roads@.contains(RoadID(r as usize))
                &&& forall|k1: int, k2: int|
                    0 <= k1 < k2 < node.roads@.len() ==> (#[trigger] node.roads@[k1]).0 < (
                    #[trigger] node.roads@[k2]).0
            }
    }

    /// Whether `tt` joins lane types that may legally be connected by a turn.
    pub open spec fn spec_turn_compatible(src: LaneType, dst: LaneType) -> bool {
        if src is Sidewalk {
            dst is Sidewalk
        } else {
            (src is Driving || src is Biking || src is Bus) && (dst is Driving || dst is Biking
                || dst is Bus)
        }
    }

    /// Every turn crosses the intersection it names: its source lane ends
    /// there and its destination lane starts there; its lane types are
    /// compatible with its kind; turn ids are unique.
    pub open spec fn wf_turns(&self) -> bool {
        &&& forall|j: int|
            0 <= j < self.turns@.len() ==> {
                let t = #[trigger] self.turns@[j];
                &&& t.id.parent.0 < self.intersections@.len()
                &&& t.id.src.0 < self.lanes@.len()
                &&& t.id.dst.0 < self.lanes@.len()
                &&& self.lanes@[t.id.src.0 as int].dst_i == t.id.parent
                &&& self.lanes@[t.id.dst.0 as int].src_i == t.id.parent
                &&& Self::spec_turn_compatible(
                    self.lanes@[t.id.src.0 as int].lane_type,
                    self.lanes@[t.id.dst.0 as int].lane_type,
                )
                &&& (t.spec_between_sidewalks() <==> self.lanes@[
                    t.id.src.0 as int
                ].lane_type is Sidewalk)
            }
        &&& forall|j1: int, j2: int|
            0 <= j1 < j2 < self.turns@.len() ==> (#[trigger] self.turns@[j1]).id != (
            #[trigger] self.turns@[j2]).id
    }

    /// One stop-sign policy is consistent with the store: it sits on a
    /// stop-sign intersection, covers exactly that intersection's turns,
    /// lists no turn twice, and bans nothing.
    pub open spec fn spec_stop_sign_consistent(&self, ss: ControlStopSign) -> bool {
        &&& ss.id.0 < self.intersections@.len()
        &&& self.intersections@[ss.id.0 as int].intersection_type is StopSign
        &&& ss.spec_distinct()
        &&& forall|k: int|
            0 <= k < ss.turns@.len() ==> {
                let e = #[trigger] ss.turns@[k];
                &&& e.0.parent == ss.id
                &&& self.spec_has_turn(e.0)
                &&& !(e.1 is Banned)
            }
        &&& forall|j: int|
            0 <= j < self.turns@.len() && (#[trigger] self.turns@[j]).id.parent == ss.id
                ==> ss.spec_covers(self.turns@[j].id)
    }

    /// One signal policy is consistent with the store: it sits on a
    /// signal intersection; every cycle covers exactly that intersection's
    /// turns with a positive duration; every turn gets the green in some
    /// cycle; and no cycle gives the green to two turns merging into the
    /// same lane.
    pub open spec fn spec_signal_consistent(&self, ts: ControlTrafficSignal) -> bool {
        &&& ts.id.0 < self.intersections@.len()
        &&& self.intersections@[ts.id.0 as int].intersection_type is TrafficSignal
        &&& ts.cycles@.len() >= 1
        &&& forall|c: int|
            0 <= c < ts.cycles@.len() ==> {
                let cy = #[trigger] ts.cycles@[c];
                &&& cy.parent == ts.id
                &&& cy.duration_s > 0
                &&& cy.spec_distinct()
                &&& forall|k: int|
                    0 <= k < cy.priorities@.len() ==> {
                        let e = #[trigger] cy.priorities@[k];
                        &&& e.0.parent == ts.id
                        &&& self.spec_has_turn(e.0)
                    }
                &&& forall|j: int|
                    0 <= j < self.turns@.len() && (#[trigger] self.turns@[j]).id.parent == ts.id
                        ==> cy.spec_covers(self.turns@[j].id)
                &&& forall|k1: int, k2: int|
                    0 <= k1 < k2 < cy.priorities@.len() && (#[trigger] cy.priorities@[k1]).1 is Priority
                        && (#[trigger] cy.priorities@[k2]).1 is Priority ==> cy.priorities@[
                        k1
                    ].0.dst != cy.priorities@[k2].0.dst
            }
        &&& forall|j: int|
            0 <= j < self.turns@.len() && (#[trigger] self.turns@[j]).id.parent == ts.id
                ==> ts.spec_some_cycle_prioritizes(self.turns@[j].id)
    }

    /// Each stop-sign-controlled intersection carries exactly one stop-sign
    /// policy, consistent with the store.
    pub open spec fn wf_stop_signs(&self) -> bool {
        &&& forall|s: int|
            0 <= s < self.stop_signs@.len() ==> self.spec_stop_sign_consistent(
                #[trigger] self.stop_signs@[s],
            )
        &&& forall|s1: int, s2: int|
            0 <= s1 < s2 < self.stop_signs@.len() ==> (#[trigger] self.stop_signs@[s1]).id.0 < (
            #[trigger] self.stop_signs@[s2]).id.0
        &&& forall|i: int|
            0 <= i < self.intersections@.len() && (
            #[trigger] self.intersections@[i]).intersection_type is StopSign ==> exists|s: int|
                0 <= s < self.stop_signs@.len() && (#[trigger] self.stop_signs@[s]).id.0 == i
    }

    /// Each signal-controlled intersection carries exactly one signal
    /// policy, consistent with the store.
    pub open spec fn wf_traffic_signals(&self) -> bool {
        &&& forall|g: int|
            0 <= g < self.traffic_signals@.len() ==> self.spec_signal_consistent(
                #[trigger] self.traffic_signals@[g],
            )
        &&& forall|g1: int, g2: int|
            0 <= g1 < g2 < self.traffic_signals@.len() ==> (
            #[trigger] self.traffic_signals@[g1]).id.0 < (
            #[trigger] self.traffic_signals@[g2]).id.0
        &&& forall|i: int|
            0 <= i < self.intersections@.len() && (
            #[trigger] self.intersections@[i]).intersection_type is TrafficSignal ==> exists|
                g: int,
            |
                0 <= g < self.traffic_signals@.len() && (#[trigger] self.traffic_signals@[g]).id.0
                    == i
    }

    /// Every bus stop sits on a sidewalk lane, within that lane's length;
    /// every route's stops resolve and come in GTFS order.
    pub open spec fn wf_bus(&self) -> bool {
        &&& forall|j: int|
            0 <= j < self.bus_stops@.len() ==> {
                let s = #[trigger] self.bus_stops@[j];
                &&& s.sidewalk.0 < self.lanes@.len()
                &&& self.lanes@[s.sidewalk.0 as int].lane_type is Sidewalk
                &&& s.dist_along_mm <= self.lanes@[s.sidewalk.0 as int].length_mm
            }
        &&& forall|j: int|
            0 <= j < self.bus_routes@.len() ==> {
                let r = #[trigger] self.bus_routes@[j];
                &&& r.stops@.len() >= 1
                &&& forall|k: int|
                    0 <= k < r.stops@.len() ==> (#[trigger] r.stops@[k]).0 < self.bus_stops@.len()
            }
    }

    /// Every building's front path lands on a sidewalk lane within its
    /// length.
    pub open spec fn wf_buildings(&self) -> bool {
        forall|j: int|
            0 <= j < self.buildings@.len() ==> {
                let b = #[trigger] self.buildings@[j];
                &&& b.front_path.sidewalk.0 < self.lanes@.len()
                &&& self.lanes@[b.front_path.sidewalk.0 as int].lane_type is Sidewalk
                &&& b.front_path.dist_along_mm <= self.lanes@[
                    b.front_path.sidewalk.0 as int
                ].length_mm
            }
    }

    /// The full internal-consistency invariant of a constructed map.
    pub open spec fn wf(&self) -> bool {
        &&& self.wf_dense_ids()
        &&& self.wf_roads()
        &&& self.wf_lanes()
        &&& self.wf_intersections()
        &&& self.wf_turns()
        &&& self.wf_stop_signs()
        &&& self.wf_traffic_signals()
        &&& self.wf_bus()
        &&& self.wf_buildings()
    }

    pub fn get_r(&self, id: RoadID) -> (r: &Road)
        requires
            id.0 < self.roads@.len(),
        ensures
            *r == self.roads@[id.0 as int],
    {
        &self.roads[id.0]
    }

    pub fn get_l(&self, id: LaneID) -> (r: &Lane)
        requires
            id.0 < self.lanes@.len(),
        ensures
            *r == self.lanes@[id.0 as int],
    {
        &self.lanes[id.0]
    }

    pub fn get_i(&self, id: IntersectionID) -> (r: &Intersection)
        requires
            id.0 < self.intersections@.len(),
        ensures
            *r == self.intersections@[id.0 as int],
    {
        &self.intersections[id.0]
    }

    /// Turn lookup by structured id; the id must name a turn of this map.
    pub fn get_t(&self, id: TurnID) -> (r: &Turn)
        requires
            self.wf_turns(),
            self.spec_has_turn(id),
        ensures
            *r == self.spec_turn(id),
            r.id == id,
    {
        let mut j: usize = 0;
        while j < self.turns.len()
            invariant
                self.wf_turns(),
                self.spec_has_turn(id),
                j <= self.turns@.len(),
                forall|k: int| 0 <= k < j ==> (#[trigger] self.turns@[k]).id != id,
            decreases self.turns@.len() - j,
        {
            if self.turns[j].id == id {
                proof {
                    let w = choose|k: int|
                        0 <= k < self.turns@.len() && (#[trigger] self.turns@[k]).id == id;
                    assert(self.turns@[w].id == id);
                    assert(w == j as int);
                }
                return &self.turns[j];
            }
            j += 1;
        }
        proof {
            let w = choose|k: int|
                0 <= k < self.turns@.len() && (#[trigger] self.turns@[k]).id == id;
            assert(self.turns@[w].id != id);
        }
        &self.turns[0]
    }

    pub fn get_b(&self, id: BuildingID) -> (r: &Building)
        requires
            id.0 < self.buildings@.len(),
        ensures
            *r == self.buildings@[id.0 as int],
    {
        &self.buildings[id.0]
    }

    pub fn get_p(&self, id: ParcelID) -> (r: &Parcel)
        requires
            id.0 < self.parcels@.len(),
        ensures
            *r == self.parcels@[id.0 as int],
    {
        &self.parcels[id.0]
    }

    pub fn get_a(&self, id: AreaID) -> (r: &Area)
        requires
            id.0 < self.areas@.len(),
        ensures
            *r == self.areas@[id.0 as int],
    {
        &self.areas[id.0]
    }

    pub fn get_es(&self, id: ExtraShapeID) -> (r: &ExtraShape)
        requires
            id.0 < self.extra_shapes@.len(),
        ensures
            *r == self.extra_shapes@[id.0 as int],
    {
        &self.extra_shapes[id.0]
    }

    pub fn get_bs(&self, id: BusStopID) -> (r: &BusStop)
        requires
            id.0 < self.bus_stops@.len(),
        ensures
            *r == self.bus_stops@[id.0 as int],
    {
        &self.bus_stops[id.0]
    }

    pub fn get_all_bus_routes(&self) -> (r: &Vec<BusRoute>)
        ensures
            r@ == self.bus_routes@,
    {
        &self.bus_routes
    }

    /// The intersection a lane starts at.
    pub fn get_source_intersection(&self, l: LaneID) -> (r: &Intersection)
        requires
            self.wf_lanes(),
            l.0 < self.lanes@.len(),
        ensures
            *r == self.intersections@[self.lanes@[l.0 as int].src_i.0 as int],
    {
        let src = self.lanes[l.0].src_i;
        &self.intersections[src.0]
    }

    /// The intersection a lane ends at.
    pub fn get_destination_intersection(&self, l: LaneID) -> (r: &Intersection)
        requires
            self.wf_lanes(),
            l.0 < self.lanes@.len(),
        ensures
            *r == self.intersections@[self.lanes@[l.0 as int].dst_i.0 as int],
    {
        let dst = self.lanes[l.0].dst_i;
        &self.intersections[dst.0]
    }

    pub fn get_bounds(&self) -> (r: Bounds)
        ensures
            r == self.bounds,
    {
        self.bounds
    }
}

/// Looking a lane up by its own id yields that lane, and its parent road
/// lists it: the store and the ownership lists never disagree.
pub proof fn lemma_lane_lookup_consistent(m: RoadMap, j: int)
    requires
        m.wf(),
        0 <= j < m.lanes@.len(),
    ensures
        m.lanes@[j].id.0 == j,
        m.lanes@[j].parent.0 < m.roads@.len(),
        m.roads@[m.lanes@[j].parent.0 as int].spec_contains_lane(m.lanes@[j].id),
{
}

/// An intersection's road list holds exactly the roads whose source or
/// destination is that intersection.
pub proof fn lemma_intersection_roads_exact(m: RoadMap, i: int, r: int)
    requires
        m.wf(),
        0 <= i < m.intersections@.len(),
        0 <= r < m.roads@.len(),
    ensures
        m.intersections@[i].roads@.contains(RoadID(r as usize)) <==> (m.roads@[r].src_i.0 == i
            || m.roads@[r].dst_i.0 == i),
{
    if m.intersections@[i].roads@.contains(RoadID(r as usize)) {
        let k = choose|k: int|
            0 <= k < m.intersections@[i].roads@.len() && m.intersections@[i].roads@[k] == RoadID(
                r as usize,
            );
        assert(m.intersections@[i].roads@[k].0 < m.roads@.len());
    }
}

/// Every turn at an intersection leaves a lane that ends there and enters a
/// lane that starts there.
pub proof fn lemma_turn_endpoints(m: RoadMap, j: int)
    requires
        m.wf(),
        0 <= j < m.turns@.len(),
    ensures
        m.turns@[j].id.src.0 < m.lanes@.len(),
        m.turns@[j].id.dst.0 < m.lanes@.len(),
        m.lanes@[m.turns@[j].id.src.0 as int].dst_i == m.turns@[j].id.parent,
        m.lanes@[m.turns@[j].id.dst.0 as int].src_i == m.turns@[j].id.parent,
{
}

/// A stop sign's turn set equals its intersection's turn set.
pub proof fn lemma_stop_sign_covers_exactly(m: RoadMap, s: int, t: TurnID)
    requires
        m.wf(),
        0 <= s < m.stop_signs@.len(),
    ensures
        m.stop_signs@[s].spec_covers(t) <==> (m.spec_has_turn(t) && t.parent == m.stop_signs@[s].id),
{
    if m.stop_signs@[s].spec_covers(t) {
        let k = choose|k: int|
            0 <= k < m.stop_signs@[s].turns@.len() && (#[trigger] m.stop_signs@[s].turns@[k]).0
                == t;
        assert(m.stop_signs@[s].turns@[k].0.parent == m.stop_signs@[s].id);
    }
    if m.spec_has_turn(t) && t.parent == m.stop_signs@[s].id {
        let j = choose|j: int| 0 <= j < m.turns@.len() && (#[trigger] m.turns@[j]).id == t;
        assert(m.stop_signs@[s].spec_covers(m.turns@[j].id));
    }
}

/// Every cycle of a traffic signal covers exactly its intersection's turn
/// set, and every turn there gets the green in some cycle.
pub proof fn lemma_signal_covers_exactly(m: RoadMap, g: int, c: int, t: TurnID)
    requires
        m.wf(),
        0 <= g < m.traffic_signals@.len(),
        0 <= c < m.traffic_signals@[g].cycles@.len(),
    ensures
        m.traffic_signals@[g].cycles@[c].spec_covers(t) <==> (m.spec_has_turn(t) && t.parent
            == m.traffic_signals@[g].id),
        m.spec_has_turn(t) && t.parent == m.traffic_signals@[g].id
            ==> m.traffic_signals@[g].spec_some_cycle_prioritizes(t),
{
    let cy = m.traffic_signals@[g].cycles@[c];
    if cy.spec_covers(t) {
        let k = choose|k: int|
            0 <= k < cy.priorities@.len() && (#[trigger] cy.priorities@[k]).0 == t;
        assert(cy.priorities@[k].0.parent == m.traffic_signals@[g].id);
    }
    if m.spec_has_turn(t) && t.parent == m.traffic_signals@[g].id {
        let j = choose|j: int| 0 <= j < m.turns@.len() && (#[trigger] m.turns@[j]).id == t;
        assert(cy.spec_covers(m.turns@[j].id));
        assert(m.traffic_signals@[g].spec_some_cycle_prioritizes(m.turns@[j].id));
    }
}

/// No constructed map holds a laneless road: a road whose tags would
/// fabricate no lane at all is rejected during conversion and never
/// reaches the store.
pub proof fn lemma_no_laneless_road(m: RoadMap, i: int)
    requires
        m.wf(),
        0 <= i < m.roads@.len(),
    ensures
        m.roads@[i].children_forwards@.len() + m.roads@[i].children_backwards@.len() >= 1,
{
}

/// Every bus stop sits within the length of its (sidewalk) host lane.
pub proof fn lemma_bus_stop_on_lane(m: RoadMap, j: int)
    requires
        m.wf(),
        0 <= j < m.bus_stops@.len(),
    ensures
        m.bus_stops@[j].sidewalk.0 < m.lanes@.len(),
        m.lanes@[m.bus_stops@[j].sidewalk.0 as int].lane_type is Sidewalk,
        0 <= m.bus_stops@[j].dist_along_mm <= m.lanes@[m.bus_stops@[j].sidewalk.0 as int].length_mm,
{
}

} // verus!
