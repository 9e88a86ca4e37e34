use crate::geometry::{spec_coord_ok, spec_points_ok};
use crate::intersection::{Intersection, IntersectionID, IntersectionType};
use crate::lane::{Lane, LaneID, LaneType};
use crate::area::{Area, AreaID, AreaType};
use crate::building::{Building, BuildingID, FrontPath};
use crate::bus_stop::{BusRoute, BusRouteID, BusStop, BusStopID};
use crate::error::MapError;
use crate::extra_shape::{ExtraShape, ExtraShapeID};
use crate::map::{Bounds, RoadMap};
use crate::parcel::{Parcel, ParcelID};
use crate::road::{Road, RoadID};
use crate::stop_signs::ControlStopSign;
use crate::traffic_signals::{ControlTrafficSignal, Cycle};
use crate::raw_data::{find_node, RawMap, RawWay};
use crate::turn::{Turn, TurnID, TurnPriority, TurnType};
use crate::tags::{spec_tag_is, spec_tag_value, tag_is, tag_value};
use vstd::prelude::*;

verus! {

/// Whether the tags mark a one-way road.
pub open spec fn spec_oneway(tags: Seq<(String, String)>) -> bool {
    spec_tag_is(tags, "oneway"@, "yes"@)
}

/// Total number of driving lanes the tags ask for; ambiguous or missing
/// tags fall back to the fixed default of two.
pub open spec fn spec_driving_count(tags: Seq<(String, String)>) -> int {
    match spec_tag_value(tags, "lanes"@) {
        Some(v) => if v == "0"@ {
            0
        } else if v == "1"@ {
            1
        } else if v == "2"@ {
            2
        } else if v == "3"@ {
            3
        } else if v == "4"@ {
            4
        } else if v == "5"@ {
            5
        } else if v == "6"@ {
            6
        } else {
            2
        },
        None => 2,
    }
}

pub open spec fn spec_has_parking(tags: Seq<(String, String)>) -> bool {
    spec_tag_is(tags, "parking:lane:both"@, "parallel"@)
}

pub open spec fn spec_has_bike_lane(tags: Seq<(String, String)>) -> bool {
    spec_tag_is(tags, "cycleway"@, "lane"@)
}

pub open spec fn spec_has_bus_lane(tags: Seq<(String, String)>) -> bool {
    spec_tag_is(tags, "bus"@, "yes"@)
}

/// Sidewalks are the default; only an explicit `sidewalk=none` removes them.
pub open spec fn spec_has_sidewalk(tags: Seq<(String, String)>) -> bool {
    !spec_tag_is(tags, "sidewalk"@, "none"@)
}

/// One side's lane list, outside-to-inside: driving lanes, then parking,
/// biking, bus and sidewalk as the tags ask.
pub open spec fn spec_side_lanes(tags: Seq<(String, String)>, n_driving: int) -> Seq<LaneType> {
    Seq::new(n_driving as nat, |i: int| LaneType::Driving) + (if spec_has_parking(tags) {
        seq![LaneType::Parking]
    } else {
        seq![]
    }) + (if spec_has_bike_lane(tags) {
        seq![LaneType::Biking]
    } else {
        seq![]
    }) + (if spec_has_bus_lane(tags) {
        seq![LaneType::Bus]
    } else {
        seq![]
    }) + (if spec_has_sidewalk(tags) {
        seq![LaneType::Sidewalk]
    } else {
        seq![]
    })
}

/// The forward side: all driving lanes on a one-way road, else half of
/// them, rounded up.
pub open spec fn spec_fwd_lanes(tags: Seq<(String, String)>) -> Seq<LaneType> {
    if spec_oneway(tags) {
        spec_side_lanes(tags, spec_driving_count(tags))
    } else {
        spec_side_lanes(tags, (spec_driving_count(tags) + 1) / 2)
    }
}

/// The backward side: empty on a one-way road.
pub open spec fn spec_back_lanes(tags: Seq<(String, String)>) -> Seq<LaneType> {
    if spec_oneway(tags) {
        seq![]
    } else {
        spec_side_lanes(tags, spec_driving_count(tags) / 2)
    }
}

/// A road whose tags yield no lane at all is rejected during conversion.
pub open spec fn spec_road_rejected(tags: Seq<(String, String)>) -> bool {
    spec_fwd_lanes(tags).len() == 0 && spec_back_lanes(tags).len() == 0
}

/// A road tagged `oneway=yes` fabricates no backward lanes at all.
pub proof fn lemma_oneway_empty_backward(tags: Seq<(String, String)>)
    requires
        spec_oneway(tags),
    ensures
        spec_back_lanes(tags).len() == 0,
{
}

/// String-vs-literal comparison, by view.
fn str_eq(a: &String, b: &str) -> (r: bool)
    ensures
        r == (a@ == b@),
{
    let b_s: String = b.to_owned();
    *a == b_s
}

fn side_lanes(tags: &Vec<(String, String)>, n_driving: u64) -> (r: Vec<LaneType>)
    requires
        n_driving <= 6,
    ensures
        r@ == spec_side_lanes(tags@, n_driving as int),
{
    let mut r: Vec<LaneType> = Vec::new();
    let mut i: u64 = 0;
    while i < n_driving
        invariant
            i <= n_driving,
            r@ =~= Seq::new(i as nat, |k: int| LaneType::Driving),
        decreases n_driving - i,
    {
        r.push(LaneType::Driving);
        proof {
            assert(r@ =~= Seq::new((i + 1) as nat, |k: int| LaneType::Driving));
        }
        i += 1;
    }
    if tag_is(tags, "parking:lane:both", "parallel") {
        r.push(LaneType::Parking);
    }
    if tag_is(tags, "cycleway", "lane") {
        r.push(LaneType::Biking);
    }
    if tag_is(tags, "bus", "yes") {
        r.push(LaneType::Bus);
    }
    if !tag_is(tags, "sidewalk", "none") {
        r.push(LaneType::Sidewalk);
    }
    proof {
        assert(r@ =~= spec_side_lanes(tags@, n_driving as int));
    }
    r
}

/// Fabricate the two lane lists of a road from its OSM tags. Deterministic:
/// the result depends on the tags alone, with the documented defaults
/// (two driving lanes, sidewalks on both sides, no parking) where the tags
/// are silent or ambiguous.
pub fn get_lane_types(tags: &Vec<(String, String)>) -> (r: (Vec<LaneType>, Vec<LaneType>))
    ensures
        r.0@ == spec_fwd_lanes(tags@),
        r.1@ == spec_back_lanes(tags@),
{
    let n: u64 = match tag_value(tags, "lanes") {
        Some(v) => {
            if str_eq(v, "0") {
                0
            } else if str_eq(v, "1") {
                1
            } else if str_eq(v, "2") {
                2
            } else if str_eq(v, "3") {
                3
            } else if str_eq(v, "4") {
                4
            } else if str_eq(v, "5") {
                5
            } else if str_eq(v, "6") {
                6
            } else {
                2
            }
        },
        None => 2,
    };
    proof {
        assert(n as int == spec_driving_count(tags@));
    }
    if tag_is(tags, "oneway", "yes") {
        let fwd = side_lanes(tags, n);
        let back: Vec<LaneType> = Vec::new();
        (fwd, back)
    } else {
        let fwd = side_lanes(tags, (n + 1) / 2);
        let back = side_lanes(tags, n / 2);
        (fwd, back)
    }
}


/// A stretch of one OSM way between two consecutive intersection nodes.
pub struct RoadSegment {
    pub osm_way_id: u64,
    pub osm_tags: Vec<(String, String)>,
    pub src_i: usize,
    pub dst_i: usize,
    pub pts: Vec<(u64, u64)>,
}

/// Whether a way references a node id anywhere.
pub open spec fn spec_way_contains(w: RawWay, nid: u64) -> bool {
    exists|k: int| 0 <= k < w.nodes@.len() && w.nodes@[k] == nid
}

/// A node becomes an intersection when it ends some way or is shared by
/// two ways.
pub open spec fn spec_is_int_node(raw: RawMap, nid: u64) -> bool {
    ||| exists|i: int|
        0 <= i < raw.ways@.len() && ((#[trigger] raw.ways@[i]).nodes@.first() == nid
            || raw.ways@[i].nodes@.last() == nid)
    ||| exists|i1: int, i2: int|
        0 <= i1 < i2 < raw.ways@.len() && spec_way_contains(#[trigger] raw.ways@[i1], nid)
            && spec_way_contains(#[trigger] raw.ways@[i2], nid)
}

fn way_contains(w: &RawWay, nid: u64) -> (r: bool)
    ensures
        r == spec_way_contains(*w, nid),
{
    let mut k: usize = 0;
    while k < w.nodes.len()
        invariant
            k <= w.nodes@.len(),
            forall|j: int| 0 <= j < k ==> w.nodes@[j] != nid,
        decreases w.nodes@.len() - k,
    {
        if w.nodes[k] == nid {
            return true;
        }
        k += 1;
    }
    false
}

fn is_int_node(raw: &RawMap, nid: u64) -> (r: bool)
    requires
        forall|i: int| 0 <= i < raw.ways@.len() ==> (#[trigger] raw.ways@[i]).nodes@.len() >= 2,
    ensures
        r == spec_is_int_node(*raw, nid),
{
    let mut found: Option<usize> = None;
    let mut i: usize = 0;
    while i < raw.ways.len()
        invariant
            forall|j: int| 0 <= j < raw.ways@.len() ==> (#[trigger] raw.ways@[j]).nodes@.len() >= 2,
            i <= raw.ways@.len(),
            forall|j: int|
                0 <= j < i ==> (#[trigger] raw.ways@[j]).nodes@.first() != nid && raw.ways@[
                    j
                ].nodes@.last() != nid,
            match found {
                Some(w) => w < i && spec_way_contains(raw.ways@[w as int], nid) && forall|j: int|
                    0 <= j < i && j != w ==> !spec_way_contains(#[trigger] raw.ways@[j], nid),
                None => forall|j: int| 0 <= j < i ==> !spec_way_contains(#[trigger] raw.ways@[j], nid),
            },
        decreases raw.ways@.len() - i,
    {
        let w = &raw.ways[i];
        if w.nodes[0] == nid || w.nodes[w.nodes.len() - 1] == nid {
            return true;
        }
        if way_contains(w, nid) {
            match found {
                Some(_) => {
                    return true;
                },
                None => {
                    found = Some(i);
                },
            }
        }
        i += 1;
    }
    false
}

/// Copy a tag list; the copy equals the original value for value.
pub fn clone_tags(tags: &Vec<(String, String)>) -> (r: Vec<(String, String)>)
    ensures
        r@ == tags@,
{
    let mut r: Vec<(String, String)> = Vec::new();
    let mut i: usize = 0;
    while i < tags.len()
        invariant
            i <= tags@.len(),
            r@ =~= tags@.take(i as int),
        decreases tags@.len() - i,
    {
        r.push((tags[i].0.clone(), tags[i].1.clone()));
        proof {
            assert(r@ =~= tags@.take(i + 1));
        }
        i += 1;
    }
    proof {
        assert(r@ =~= tags@);
    }
    r
}

/// Copy a road id list.
pub(crate) fn copy_road_ids(ids: &Vec<RoadID>) -> (r: Vec<RoadID>)
    ensures
        r@ == ids@,
{
    let mut r: Vec<RoadID> = Vec::new();
    let mut i: usize = 0;
    while i < ids.len()
        invariant
            i <= ids@.len(),
            r@ =~= ids@.take(i as int),
        decreases ids@.len() - i,
    {
        r.push(ids[i]);
        proof {
            assert(r@ =~= ids@.take(i + 1));
        }
        i += 1;
    }
    proof {
        assert(r@ =~= ids@);
    }
    r
}

/// Copy a point list.
pub fn copy_points(pts: &Vec<(u64, u64)>) -> (r: Vec<(u64, u64)>)
    ensures
        r@ == pts@,
{
    let mut r: Vec<(u64, u64)> = Vec::new();
    let mut i: usize = 0;
    while i < pts.len()
        invariant
            i <= pts@.len(),
            r@ =~= pts@.take(i as int),
        decreases pts@.len() - i,
    {
        r.push(pts[i]);
        proof {
            assert(r@ =~= pts@.take(i + 1));
        }
        i += 1;
    }
    proof {
        assert(r@ =~= pts@);
    }
    r
}

/// Find the intersection seeded from this OSM node.
fn find_int(ints: &Vec<Intersection>, nid: u64) -> (r: Option<usize>)
    ensures
        match r {
            Some(j) => j < ints@.len() && ints@[j as int].osm_node_id == nid,
            None => forall|j: int| 0 <= j < ints@.len() ==> (#[trigger] ints@[j]).osm_node_id != nid,
        },
{
    let mut j: usize = 0;
    while j < ints.len()
        invariant
            j <= ints@.len(),
            forall|k: int| 0 <= k < j ==> (#[trigger] ints@[k]).osm_node_id != nid,
        decreases ints@.len() - j,
    {
        if ints[j].osm_node_id == nid {
            return Some(j);
        }
        j += 1;
    }
    None
}

/// Seed one intersection per intersection node, in node-id order.
fn build_intersection_seeds(raw: &RawMap) -> (ints: Vec<Intersection>)
    requires
        raw.spec_shape_ok(),
    ensures
        forall|k: int|
            0 <= k < ints@.len() ==> (#[trigger] ints@[k]).id.0 == k && spec_coord_ok(
                ints@[k].x_mm,
                ints@[k].y_mm,
            ) && ints@[k].roads@.len() == 0,
        forall|j: int|
            0 <= j < raw.nodes@.len() && spec_is_int_node(*raw, (#[trigger] raw.nodes@[j]).osm_node_id)
                ==> exists|k: int|
                0 <= k < ints@.len() && (#[trigger] ints@[k]).osm_node_id
                    == raw.nodes@[j].osm_node_id,
{
    let mut ints: Vec<Intersection> = Vec::new();
    let mut j: usize = 0;
    while j < raw.nodes.len()
        invariant
            raw.spec_shape_ok(),
            j <= raw.nodes@.len(),
            forall|k: int|
                0 <= k < ints@.len() ==> (#[trigger] ints@[k]).id.0 == k
                    && spec_coord_ok(ints@[k].x_mm, ints@[k].y_mm) && ints@[k].roads@.len() == 0,
            forall|j2: int|
                0 <= j2 < j && spec_is_int_node(*raw, (#[trigger] raw.nodes@[j2]).osm_node_id)
                    ==> exists|k: int|
                    0 <= k < ints@.len() && (#[trigger] ints@[k]).osm_node_id
                        == raw.nodes@[j2].osm_node_id,
        decreases raw.nodes@.len() - j,
    {
        let n = raw.nodes[j];
        if is_int_node(raw, n.osm_node_id) {
            let idx = ints.len();
            let ghost pre = ints@;
            ints.push(
                Intersection {
                    id: IntersectionID(idx),
                    osm_node_id: n.osm_node_id,
                    x_mm: n.x_mm,
                    y_mm: n.y_mm,
                    elevation_mm: n.elevation_mm,
                    roads: Vec::new(),
                    intersection_type: IntersectionType::StopSign,
                },
            );
            proof {
                assert(ints@[idx as int].osm_node_id == n.osm_node_id);
                assert forall|j2: int|
                    0 <= j2 < j && spec_is_int_node(
                        *raw,
                        (#[trigger] raw.nodes@[j2]).osm_node_id,
                    ) implies exists|k: int|
                    0 <= k < ints@.len() && (#[trigger] ints@[k]).osm_node_id
                        == raw.nodes@[j2].osm_node_id by {
                    let k0 = choose|k: int|
                        0 <= k < pre.len() && (#[trigger] pre[k]).osm_node_id
                            == raw.nodes@[j2].osm_node_id;
                    assert(ints@[k0].osm_node_id == raw.nodes@[j2].osm_node_id);
                }
            }
        }
        j += 1;
    }
    ints
}


/// Split every way at its intersection nodes, yielding road segments.
fn build_segments(raw: &RawMap, ints: &Vec<Intersection>) -> (segs: Vec<RoadSegment>)
    requires
        raw.spec_shape_ok(),
        raw.spec_refs_ok(),
        forall|j: int|
            0 <= j < raw.nodes@.len() && spec_is_int_node(
                *raw,
                (#[trigger] raw.nodes@[j]).osm_node_id,
            ) ==> exists|k: int|
                0 <= k < ints@.len() && (#[trigger] ints@[k]).osm_node_id
                    == raw.nodes@[j].osm_node_id,
    ensures
        segs@.len() <= 2000 * raw.ways@.len(),
        forall|s: int|
            0 <= s < segs@.len() ==> {
                let sg = #[trigger] segs@[s];
                &&& sg.src_i < ints@.len()
                &&& sg.dst_i < ints@.len()
                &&& 2 <= sg.pts@.len() <= 2000
                &&& crate::geometry::spec_points_ok(sg.pts@)
                &&& exists|w: int|
                    0 <= w < raw.ways@.len() && (#[trigger] raw.ways@[w]).osm_way_id
                        == sg.osm_way_id && sg.osm_tags@ == raw.ways@[w].osm_tags@
            },
{
    let mut segs: Vec<RoadSegment> = Vec::new();
    let mut i: usize = 0;
    while i < raw.ways.len()
        invariant
            raw.spec_shape_ok(),
            raw.spec_refs_ok(),
            forall|j: int|
                0 <= j < raw.nodes@.len() && spec_is_int_node(
                    *raw,
                    (#[trigger] raw.nodes@[j]).osm_node_id,
                ) ==> exists|k: int|
                    0 <= k < ints@.len() && (#[trigger] ints@[k]).osm_node_id
                        == raw.nodes@[j].osm_node_id,
            i <= raw.ways@.len(),
            segs@.len() <= 2000 * i,
            forall|s: int|
                0 <= s < segs@.len() ==> {
                    let sg = #[trigger] segs@[s];
                    &&& sg.src_i < ints@.len()
                    &&& sg.dst_i < ints@.len()
                    &&& 2 <= sg.pts@.len() <= 2000
                    &&& crate::geometry::spec_points_ok(sg.pts@)
                    &&& exists|w: int|
                        0 <= w < raw.ways@.len() && (#[trigger] raw.ways@[w]).osm_way_id
                            == sg.osm_way_id && sg.osm_tags@ == raw.ways@[w].osm_tags@
                },
        decreases raw.ways@.len() - i,
    {
        let nid0 = raw.ways[i].nodes[0];
        let n0 = match find_node(&raw.nodes, nid0) {
            Some(x) => x,
            None => {
                proof {
                    assert(raw.spec_has_node(raw.ways@[i as int].nodes@[0]));
                }
                0
            },
        };
        let src0 = match find_int(ints, nid0) {
            Some(x) => x,
            None => {
                proof {
                    assert(raw.ways@[i as int].nodes@.first() == nid0);
                    assert(spec_is_int_node(*raw, nid0));
                    assert(raw.nodes@[n0 as int].osm_node_id == nid0);
                }
                0
            },
        };
        let mut cur_pts: Vec<(u64, u64)> = Vec::new();
        cur_pts.push((raw.nodes[n0].x_mm, raw.nodes[n0].y_mm));
        let mut cur_src: usize = src0;
        let mut k: usize = 1;
        while k < raw.ways[i].nodes.len()
            invariant
                raw.spec_shape_ok(),
                raw.spec_refs_ok(),
                forall|j: int|
                    0 <= j < raw.nodes@.len() && spec_is_int_node(
                        *raw,
                        (#[trigger] raw.nodes@[j]).osm_node_id,
                    ) ==> exists|k2: int|
                        0 <= k2 < ints@.len() && (#[trigger] ints@[k2]).osm_node_id
                            == raw.nodes@[j].osm_node_id,
                i < raw.ways@.len(),
                1 <= k <= raw.ways@[i as int].nodes@.len(),
                cur_src < ints@.len(),
                1 <= cur_pts@.len() <= k,
                crate::geometry::spec_points_ok(cur_pts@),
                segs@.len() <= 2000 * i + k,
                forall|s: int|
                    0 <= s < segs@.len() ==> {
                        let sg = #[trigger] segs@[s];
                        &&& sg.src_i < ints@.len()
                        &&& sg.dst_i < ints@.len()
                        &&& 2 <= sg.pts@.len() <= 2000
                        &&& crate::geometry::spec_points_ok(sg.pts@)
                        &&& exists|w: int|
                            0 <= w < raw.ways@.len() && (#[trigger] raw.ways@[w]).osm_way_id
                                == sg.osm_way_id && sg.osm_tags@ == raw.ways@[w].osm_tags@
                    },
            decreases raw.ways@[i as int].nodes@.len() - k,
        {
            let nidk = raw.ways[i].nodes[k];
            let nk = match find_node(&raw.nodes, nidk) {
                Some(x) => x,
                None => {
                    proof {
                        assert(raw.spec_has_node(raw.ways@[i as int].nodes@[k as int]));
                    }
                    0
                },
            };
            cur_pts.push((raw.nodes[nk].x_mm, raw.nodes[nk].y_mm));
            let last = k == raw.ways[i].nodes.len() - 1;
            if last || is_int_node(raw, nidk) {
                proof {
                    if last {
                        assert(raw.ways@[i as int].nodes@.last() == nidk);
                    }
                    assert(spec_is_int_node(*raw, nidk));
                    assert(raw.nodes@[nk as int].osm_node_id == nidk);
                }
                let dst = match find_int(ints, nidk) {
                    Some(x) => x,
                    None => 0,
                };
                let done = cur_pts;
                cur_pts = Vec::new();
                cur_pts.push((raw.nodes[nk].x_mm, raw.nodes[nk].y_mm));
                let ghost pre_segs = segs@;
                segs.push(
                    RoadSegment {
                        osm_way_id: raw.ways[i].osm_way_id,
                        osm_tags: clone_tags(&raw.ways[i].osm_tags),
                        src_i: cur_src,
                        dst_i: dst,
                        pts: done,
                    },
                );
                proof {
                    assert forall|s2: int|
                        0 <= s2 < segs@.len() implies exists|w: int|
                        0 <= w < raw.ways@.len() && (#[trigger] raw.ways@[w]).osm_way_id == (
                        #[trigger] segs@[s2]).osm_way_id && segs@[s2].osm_tags@ == raw.ways@[
                            w
                        ].osm_tags@ by {
                        if s2 < pre_segs.len() {
                            let w0 = choose|w: int|
                                0 <= w < raw.ways@.len() && (#[trigger] raw.ways@[w]).osm_way_id
                                    == pre_segs[s2].osm_way_id && pre_segs[s2].osm_tags@
                                    == raw.ways@[w].osm_tags@;
                            assert(raw.ways@[w0].osm_way_id == segs@[s2].osm_way_id);
                        } else {
                            assert(raw.ways@[i as int].osm_way_id == segs@[s2].osm_way_id);
                        }
                    }
                }
                cur_src = dst;
            }
            k += 1;
        }
        i += 1;
    }
    segs
}


/// `lanes_before` ignores roads that stand after `n`, so pushing a road
/// leaves every earlier prefix sum unchanged.
proof fn lemma_lanes_before_push(roads: Seq<Road>, r: Road, n: int)
    requires
        0 <= n <= roads.len(),
    ensures
        crate::map::lanes_before(roads.push(r), n) == crate::map::lanes_before(roads, n),
    decreases n,
{
    if n > 0 {
        lemma_lanes_before_push(roads, r, n - 1);
        assert(roads.push(r)[n - 1] == roads[n - 1]);
    }
}

/// The dense lane-id prefix sums never decrease.
pub(crate) proof fn lemma_lanes_before_mono(roads: Seq<Road>, a: int, b: int)
    requires
        a <= b,
    ensures
        crate::map::lanes_before(roads, a) <= crate::map::lanes_before(roads, b),
    decreases b - a,
{
    if a < b {
        lemma_lanes_before_mono(roads, a, b - 1);
    }
}

proof fn lemma_lanes_before_push_all(roads: Seq<Road>, r: Road)
    ensures
        forall|n: int|
            0 <= n <= roads.len() ==> #[trigger] crate::map::lanes_before(roads.push(r), n)
                == crate::map::lanes_before(roads, n),
{
    assert forall|n: int|
        0 <= n <= roads.len() implies #[trigger] crate::map::lanes_before(roads.push(r), n)
        == crate::map::lanes_before(roads, n) by {
        lemma_lanes_before_push(roads, r, n);
    }
}

/// The per-road and per-lane consistency that `build_roads_and_lanes`
/// establishes, relative to a number of intersections.
pub open spec fn spec_roads_lanes_ok(roads: Seq<Road>, lanes: Seq<Lane>, n_ints: int) -> bool {
    &&& lanes.len() == crate::map::lanes_before(roads, roads.len() as int)
    &&& forall|i: int|
        0 <= i < roads.len() ==> {
            let r = #[trigger] roads[i];
            &&& r.id.0 == i
            &&& r.src_i.0 < n_ints
            &&& r.dst_i.0 < n_ints
            &&& r.children_forwards@.len() + r.children_backwards@.len() >= 1
            &&& 2 <= r.center_pts@.len() <= 2000
            &&& crate::geometry::spec_points_ok(r.center_pts@)
            &&& r.length_mm > 0
            &&& r.length_mm == crate::geometry::spec_polyline_len(
                r.center_pts@,
                r.center_pts@.len() as int,
            )
            &&& forall|k: int|
                0 <= k < r.children_forwards@.len() ==> (#[trigger] r.children_forwards@[k]).0
                    == crate::map::lanes_before(roads, i) + k
            &&& forall|k: int|
                0 <= k < r.children_backwards@.len() ==> (#[trigger] r.children_backwards@[k]).0
                    == crate::map::lanes_before(roads, i) + r.children_forwards@.len() + k
        }
    &&& forall|j: int|
        0 <= j < lanes.len() ==> {
            let l = #[trigger] lanes[j];
            &&& l.id.0 == j
            &&& l.parent.0 < roads.len()
            &&& roads[l.parent.0 as int].spec_contains_lane(l.id)
            &&& l.src_i.0 < n_ints
            &&& l.dst_i.0 < n_ints
            &&& l.length_mm > 0
            &&& l.length_mm == roads[l.parent.0 as int].length_mm
        }
}

/// Fabricate roads and their lanes from the segments, handing out lane ids
/// densely: for each road its forward lanes, then its backward lanes.
/// Segments whose tags yield no lane at all, and degenerate segments of
/// zero length, are rejected.
/// A road built from a segment: same way, tags, centerline and endpoints.
pub open spec fn spec_road_from_seg(r: Road, sg: RoadSegment) -> bool {
    &&& r.osm_way_id == sg.osm_way_id
    &&& r.osm_tags@ == sg.osm_tags@
    &&& r.center_pts@ == sg.pts@
    &&& r.src_i.0 == sg.src_i
    &&& r.dst_i.0 == sg.dst_i
}

/// A segment becomes a road exactly when its tags fabricate at least one
/// lane and its centerline has positive length.
pub open spec fn spec_seg_viable(sg: RoadSegment) -> bool {
    &&& !spec_road_rejected(sg.osm_tags@)
    &&& crate::geometry::spec_polyline_len(sg.pts@, sg.pts@.len() as int) > 0
}

/// Every road's lanes are exactly what its own tags fabricate: the two
/// children lists have the fabricated lengths and the lane at each slot
/// has the fabricated type.
pub open spec fn spec_fabrication_ok(roads: Seq<Road>, lanes: Seq<Lane>) -> bool {
    forall|i: int|
        0 <= i < roads.len() ==> {
            let r = #[trigger] roads[i];
            &&& r.children_forwards@.len() == spec_fwd_lanes(r.osm_tags@).len()
            &&& r.children_backwards@.len() == spec_back_lanes(r.osm_tags@).len()
            &&& forall|k: int|
                0 <= k < r.children_forwards@.len() ==> lanes[(
                #[trigger] r.children_forwards@[k]).0 as int].lane_type == spec_fwd_lanes(
                    r.osm_tags@,
                )[k]
            &&& forall|k: int|
                0 <= k < r.children_backwards@.len() ==> lanes[(
                #[trigger] r.children_backwards@[k]).0 as int].lane_type == spec_back_lanes(
                    r.osm_tags@,
                )[k]
        }
}

/// The fabricated lane lists are short: at most six driving lanes plus one
/// each of parking, biking, bus and sidewalk per side.
proof fn lemma_lane_list_bounds(tags: Seq<(String, String)>)
    ensures
        0 <= spec_fwd_lanes(tags).len() <= 10,
        0 <= spec_back_lanes(tags).len() <= 10,
{
}

#[verifier::rlimit(100)]
#[verifier::spinoff_prover]
fn build_roads_and_lanes(segs: &Vec<RoadSegment>, n_ints: usize) -> (rl: (Vec<Road>, Vec<Lane>))
    requires
        forall|s: int|
            0 <= s < segs@.len() ==> {
                let sg = #[trigger] segs@[s];
                &&& sg.src_i < n_ints
                &&& sg.dst_i < n_ints
                &&& 2 <= sg.pts@.len() <= 2000
                &&& crate::geometry::spec_points_ok(sg.pts@)
            },
        segs@.len() <= 200000000,
    ensures
        spec_roads_lanes_ok(rl.0@, rl.1@, n_ints as int),
        spec_fabrication_ok(rl.0@, rl.1@),
        forall|i: int|
            0 <= i < rl.0@.len() ==> exists|s2: int|
                0 <= s2 < segs@.len() && spec_road_from_seg(#[trigger] rl.0@[i], segs@[s2]),
        forall|s2: int|
            0 <= s2 < segs@.len() && spec_seg_viable(#[trigger] segs@[s2]) ==> exists|i: int|
                0 <= i < rl.0@.len() && spec_road_from_seg(#[trigger] rl.0@[i], segs@[s2]),
{
    let mut roads: Vec<Road> = Vec::new();
    let mut lanes: Vec<Lane> = Vec::new();
    let mut s: usize = 0;
    while s < segs.len()
        invariant
            forall|s2: int|
                0 <= s2 < segs@.len() ==> {
                    let sg = #[trigger] segs@[s2];
                    &&& sg.src_i < n_ints
                    &&& sg.dst_i < n_ints
                    &&& 2 <= sg.pts@.len() <= 2000
                    &&& crate::geometry::spec_points_ok(sg.pts@)
                },
            s <= segs@.len(),
            segs@.len() <= 200000000,
            lanes@.len() <= 20 * s,
            spec_roads_lanes_ok(roads@, lanes@, n_ints as int),
            spec_fabrication_ok(roads@, lanes@),
            forall|i: int|
                0 <= i < roads@.len() ==> exists|s2: int|
                    0 <= s2 < segs@.len() && spec_road_from_seg(#[trigger] roads@[i], segs@[s2]),
            forall|s2: int|
                0 <= s2 < s && spec_seg_viable(#[trigger] segs@[s2]) ==> exists|i: int|
                    0 <= i < roads@.len() && spec_road_from_seg(#[trigger] roads@[i], segs@[s2]),
        decreases segs@.len() - s,
    {
        let seg = &segs[s];
        let (fwd_types, back_types) = get_lane_types(&seg.osm_tags);
        proof {
            lemma_lane_list_bounds(seg.osm_tags@);
            assert(lanes@.len() + 20 <= 20 * segs@.len() + 20);
        }
        let n_new = fwd_types.len() + back_types.len();
        if n_new >= 1 {
            let (total, _prefix) = crate::geometry::polyline_len(&seg.pts);
            if total > 0 {
                let base = lanes.len();
                let road_idx = roads.len();
                let ghost lanes0 = lanes@;
                let mut fwd_ids: Vec<LaneID> = Vec::new();
                let mut k: usize = 0;
                while k < fwd_types.len()
                    invariant
                        total > 0,
                        k <= fwd_types@.len(),
                        fwd_types@.len() <= 10,
                        base <= usize::MAX - 20,
                        fwd_ids@.len() == k,
                        lanes@.len() == base + k,
                        forall|k2: int|
                            0 <= k2 < k ==> (#[trigger] fwd_ids@[k2]).0 == base + k2,
                        forall|j: int| 0 <= j < base ==> lanes@[j] == lanes0[j],
                        lanes0.len() == base,
                        seg == segs@[s as int],
                        s < segs@.len(),
                        forall|j: int|
                            base <= j < lanes@.len() ==> {
                                let l = #[trigger] lanes@[j];
                                &&& l.id.0 == j
                                &&& l.parent.0 == road_idx
                                &&& l.src_i.0 == seg.src_i
                                &&& l.dst_i.0 == seg.dst_i
                                &&& l.length_mm == total
                                &&& l.lane_type == fwd_types@[j - base]
                            },
                    decreases fwd_types@.len() - k,
                {
                    fwd_ids.push(LaneID(base + k));
                    lanes.push(
                        Lane {
                            id: LaneID(base + k),
                            parent: RoadID(road_idx),
                            lane_type: fwd_types[k],
                            length_mm: total,
                            src_i: IntersectionID(seg.src_i),
                            dst_i: IntersectionID(seg.dst_i),
                        },
                    );
                    k += 1;
                }
                let base2 = lanes.len();
                let mut back_ids: Vec<LaneID> = Vec::new();
                let mut k2: usize = 0;
                while k2 < back_types.len()
                    invariant
                        total > 0,
                        k2 <= back_types@.len(),
                        back_types@.len() <= 10,
                        base <= usize::MAX - 20,
                        base2 == base + fwd_ids@.len(),
                        fwd_ids@.len() <= 10,
                        back_ids@.len() == k2,
                        lanes@.len() == base2 + k2,
                        forall|k3: int|
                            0 <= k3 < k2 ==> (#[trigger] back_ids@[k3]).0 == base2 + k3,
                        forall|k3: int|
                            0 <= k3 < fwd_ids@.len() ==> (#[trigger] fwd_ids@[k3]).0 == base + k3,
                        forall|j: int| 0 <= j < base ==> lanes@[j] == lanes0[j],
                        lanes0.len() == base,
                        seg == segs@[s as int],
                        s < segs@.len(),
                        forall|j: int|
                            base <= j < lanes@.len() ==> {
                                let l = #[trigger] lanes@[j];
                                &&& l.id.0 == j
                                &&& l.parent.0 == road_idx
                                &&& l.length_mm == total
                            },
                        forall|j: int|
                            base2 <= j < lanes@.len() ==> {
                                let l = #[trigger] lanes@[j];
                                &&& l.src_i.0 == seg.dst_i
                                &&& l.dst_i.0 == seg.src_i
                                &&& l.lane_type == back_types@[j - base2]
                            },
                        forall|j: int|
                            base <= j < base2 ==> {
                                let l = #[trigger] lanes@[j];
                                &&& l.src_i.0 == seg.src_i
                                &&& l.dst_i.0 == seg.dst_i
                                &&& l.lane_type == fwd_types@[j - base]
                            },
                    decreases back_types@.len() - k2,
                {
                    back_ids.push(LaneID(base2 + k2));
                    lanes.push(
                        Lane {
                            id: LaneID(base2 + k2),
                            parent: RoadID(road_idx),
                            lane_type: back_types[k2],
                            length_mm: total,
                            src_i: IntersectionID(seg.dst_i),
                            dst_i: IntersectionID(seg.src_i),
                        },
                    );
                    k2 += 1;
                }
                let road = Road {
                    id: RoadID(road_idx),
                    osm_way_id: seg.osm_way_id,
                    osm_tags: clone_tags(&seg.osm_tags),
                    children_forwards: fwd_ids,
                    children_backwards: back_ids,
                    center_pts: copy_points(&seg.pts),
                    length_mm: total,
                    src_i: IntersectionID(seg.src_i),
                    dst_i: IntersectionID(seg.dst_i),
                };
                let ghost roads0 = roads@;
                roads.push(road);
                proof {
                    assert(road.osm_tags@ == seg.osm_tags@);
                    assert(spec_fwd_lanes(road.osm_tags@) == fwd_types@);
                    assert(spec_back_lanes(road.osm_tags@) == back_types@);
                    assert forall|i2: int|
                        0 <= i2 < roads@.len() implies exists|s2: int|
                        0 <= s2 < segs@.len() && spec_road_from_seg(
                            #[trigger] roads@[i2],
                            segs@[s2],
                        ) by {
                        if i2 < roads0.len() {
                            let w0 = choose|s2: int|
                                0 <= s2 < segs@.len() && spec_road_from_seg(
                                    #[trigger] roads0[i2],
                                    segs@[s2],
                                );
                            assert(spec_road_from_seg(roads@[i2], segs@[w0]));
                        } else {
                            assert(spec_road_from_seg(roads@[i2], segs@[s as int]));
                        }
                    }
                    assert forall|s2: int|
                        0 <= s2 <= s && spec_seg_viable(#[trigger] segs@[s2]) implies exists|
                        i2: int,
                    |
                        0 <= i2 < roads@.len() && spec_road_from_seg(
                            #[trigger] roads@[i2],
                            segs@[s2],
                        ) by {
                        if s2 < s {
                            let w0 = choose|i2: int|
                                0 <= i2 < roads0.len() && spec_road_from_seg(
                                    #[trigger] roads0[i2],
                                    segs@[s2],
                                );
                            assert(spec_road_from_seg(roads@[w0], segs@[s2]));
                        } else {
                            assert(spec_road_from_seg(roads@[roads@.len() - 1], segs@[s2]));
                        }
                    }
                    lemma_lanes_before_push_all(roads0, road);
                    assert(crate::map::lanes_before(roads@, road_idx as int) == lanes0.len());
                    assert(roads@[road_idx as int] == road);
                    assert(crate::map::lanes_before(roads@, roads@.len() as int)
                        == crate::map::lanes_before(roads@, road_idx as int)
                        + road.children_forwards@.len() + road.children_backwards@.len());
                    assert forall|j: int|
                        0 <= j < lanes@.len() implies {
                        let l = #[trigger] lanes@[j];
                        &&& l.id.0 == j
                        &&& l.parent.0 < roads@.len()
                        &&& roads@[l.parent.0 as int].spec_contains_lane(l.id)
                        &&& l.src_i.0 < n_ints
                        &&& l.dst_i.0 < n_ints
                        &&& l.length_mm > 0
                        &&& l.length_mm == roads@[l.parent.0 as int].length_mm
                    } by {
                        if j < base {
                            assert(lanes@[j] == lanes0[j]);
                            assert(roads0[lanes0[j].parent.0 as int].spec_contains_lane(
                                lanes0[j].id,
                            ));
                            assert(roads@[lanes0[j].parent.0 as int] == roads0[
                                lanes0[j].parent.0 as int
                            ]);
                        } else {
                            let l = lanes@[j];
                            assert(l.parent.0 == road_idx);
                            if j < base2 {
                                assert(road.children_forwards@[j - base].0 == j);
                                assert(road.children_forwards@.contains(l.id));
                            } else {
                                assert(road.children_backwards@[j - base2].0 == j);
                                assert(road.children_backwards@.contains(l.id));
                            }
                        }
                    }
                    assert forall|i2: int|
                        0 <= i2 < roads@.len() implies {
                        let r = #[trigger] roads@[i2];
                        &&& r.children_forwards@.len() == spec_fwd_lanes(r.osm_tags@).len()
                        &&& r.children_backwards@.len() == spec_back_lanes(r.osm_tags@).len()
                        &&& forall|k3: int|
                            0 <= k3 < r.children_forwards@.len() ==> lanes@[(
                            #[trigger] r.children_forwards@[k3]).0 as int].lane_type
                                == spec_fwd_lanes(r.osm_tags@)[k3]
                        &&& forall|k3: int|
                            0 <= k3 < r.children_backwards@.len() ==> lanes@[(
                            #[trigger] r.children_backwards@[k3]).0 as int].lane_type
                                == spec_back_lanes(r.osm_tags@)[k3]
                    } by {
                        if i2 < roads0.len() {
                            assert(roads@[i2] == roads0[i2]);
                            assert forall|k3: int|
                                0 <= k3 < roads0[i2].children_forwards@.len() implies lanes@[(
                            #[trigger] roads0[i2].children_forwards@[k3]).0 as int].lane_type
                                == spec_fwd_lanes(roads0[i2].osm_tags@)[k3] by {
                                lemma_lanes_before_mono(roads0, i2 + 1, roads0.len() as int);
                                assert(roads0[i2].children_forwards@[k3].0 < base);
                                assert(lanes@[roads0[i2].children_forwards@[k3].0 as int]
                                    == lanes0[roads0[i2].children_forwards@[k3].0 as int]);
                            }
                            assert forall|k3: int|
                                0 <= k3 < roads0[i2].children_backwards@.len() implies lanes@[(
                            #[trigger] roads0[i2].children_backwards@[k3]).0 as int].lane_type
                                == spec_back_lanes(roads0[i2].osm_tags@)[k3] by {
                                lemma_lanes_before_mono(roads0, i2 + 1, roads0.len() as int);
                                assert(roads0[i2].children_backwards@[k3].0 < base);
                                assert(lanes@[roads0[i2].children_backwards@[k3].0 as int]
                                    == lanes0[roads0[i2].children_backwards@[k3].0 as int]);
                            }
                        } else {
                            let r = roads@[i2];
                            assert(r == road);
                            assert forall|k3: int|
                                0 <= k3 < r.children_forwards@.len() implies lanes@[(
                            #[trigger] r.children_forwards@[k3]).0 as int].lane_type
                                == spec_fwd_lanes(r.osm_tags@)[k3] by {
                                assert(r.children_forwards@[k3].0 == base + k3);
                                assert(lanes@[base + k3].lane_type == fwd_types@[k3]);
                            }
                            assert forall|k3: int|
                                0 <= k3 < r.children_backwards@.len() implies lanes@[(
                            #[trigger] r.children_backwards@[k3]).0 as int].lane_type
                                == spec_back_lanes(r.osm_tags@)[k3] by {
                                assert(r.children_backwards@[k3].0 == base2 + k3);
                                assert(lanes@[base2 + k3].lane_type == back_types@[k3]);
                            }
                        }
                    }
                }
            } else {
                proof {
                    assert(!spec_seg_viable(segs@[s as int]));
                }
            }
        } else {
            proof {
                assert(!spec_seg_viable(segs@[s as int]));
            }
        }
        s += 1;
    }
    (roads, lanes)
}


/// Attach to every intersection the sorted list of its incident roads, and
/// pick its control kind: few-armed or signal-tagged intersections get a
/// traffic signal, all others a stop sign.
fn attach_intersections(
    seeds: &Vec<Intersection>,
    roads: &Vec<Road>,
    raw: &RawMap,
) -> (ints: Vec<Intersection>)
    requires
        forall|k: int|
            0 <= k < seeds@.len() ==> (#[trigger] seeds@[k]).id.0 == k && spec_coord_ok(
                seeds@[k].x_mm,
                seeds@[k].y_mm,
            ),
        forall|r: int|
            0 <= r < roads@.len() ==> (#[trigger] roads@[r]).src_i.0 < seeds@.len() && roads@[
                r
            ].dst_i.0 < seeds@.len(),
    ensures
        ints@.len() == seeds@.len(),
        forall|i: int|
            0 <= i < ints@.len() ==> {
                let node = #[trigger] ints@[i];
                &&& node.id.0 == i
                &&& node.osm_node_id == seeds@[i].osm_node_id
                &&& node.x_mm == seeds@[i].x_mm
                &&& node.y_mm == seeds@[i].y_mm
                &&& node.elevation_mm == seeds@[i].elevation_mm
                &&& (node.intersection_type is StopSign || node.intersection_type is TrafficSignal)
                &&& (node.intersection_type is TrafficSignal <==> (node.roads@.len() <= 2
                    || raw.traffic_signal_nodes@.contains(node.osm_node_id)))
                &&& forall|k: int|
                    0 <= k < node.roads@.len() ==> {
                        let rid = #[trigger] node.roads@[k];
                        &&& rid.0 < roads@.len()
                        &&& (roads@[rid.0 as int].src_i.0 == i || roads@[rid.0 as int].dst_i.0
                            == i)
                    }
                &&& forall|r: int|
                    0 <= r < roads@.len() && ((#[trigger] roads@[r]).src_i.0 == i || roads@[
                        r
                    ].dst_i.0 == i) ==> node.roads@.contains(RoadID(r as usize))
                &&& forall|k1: int, k2: int|
                    0 <= k1 < k2 < node.roads@.len() ==> (#[trigger] node.roads@[k1]).0 < (
                    #[trigger] node.roads@[k2]).0
            },
{
    let mut ints: Vec<Intersection> = Vec::new();
    let mut i: usize = 0;
    while i < seeds.len()
        invariant
            forall|k: int|
                0 <= k < seeds@.len() ==> (#[trigger] seeds@[k]).id.0 == k && spec_coord_ok(
                    seeds@[k].x_mm,
                    seeds@[k].y_mm,
                ),
            forall|r: int|
                0 <= r < roads@.len() ==> (#[trigger] roads@[r]).src_i.0 < seeds@.len() && roads@[
                    r
                ].dst_i.0 < seeds@.len(),
            i <= seeds@.len(),
            ints@.len() == i,
            forall|i2: int|
                0 <= i2 < i ==> {
                    let node = #[trigger] ints@[i2];
                    &&& node.id.0 == i2
                    &&& node.osm_node_id == seeds@[i2].osm_node_id
                    &&& node.x_mm == seeds@[i2].x_mm
                    &&& node.y_mm == seeds@[i2].y_mm
                    &&& node.elevation_mm == seeds@[i2].elevation_mm
                    &&& (node.intersection_type is StopSign
                        || node.intersection_type is TrafficSignal)
                    &&& (node.intersection_type is TrafficSignal <==> (node.roads@.len() <= 2
                        || raw.traffic_signal_nodes@.contains(node.osm_node_id)))
                    &&& forall|k: int|
                        0 <= k < node.roads@.len() ==> {
                            let rid = #[trigger] node.roads@[k];
                            &&& rid.0 < roads@.len()
                            &&& (roads@[rid.0 as int].src_i.0 == i2 || roads@[rid.0 as int].dst_i.0
                                == i2)
                        }
                    &&& forall|r: int|
                        0 <= r < roads@.len() && ((#[trigger] roads@[r]).src_i.0 == i2 || roads@[
                            r
                        ].dst_i.0 == i2) ==> node.roads@.contains(RoadID(r as usize))
                    &&& forall|k1: int, k2: int|
                        0 <= k1 < k2 < node.roads@.len() ==> (#[trigger] node.roads@[k1]).0 < (
                        #[trigger] node.roads@[k2]).0
                },
        decreases seeds@.len() - i,
    {
        let mut list: Vec<RoadID> = Vec::new();
        let mut r: usize = 0;
        while r < roads.len()
            invariant
                i < seeds@.len(),
                r <= roads@.len(),
                forall|k: int|
                    0 <= k < list@.len() ==> {
                        let rid = #[trigger] list@[k];
                        &&& rid.0 < r
                        &&& rid.0 < roads@.len()
                        &&& (roads@[rid.0 as int].src_i.0 == i || roads@[rid.0 as int].dst_i.0
                            == i)
                    },
                forall|r2: int|
                    0 <= r2 < r && ((#[trigger] roads@[r2]).src_i.0 == i || roads@[r2].dst_i.0
                        == i) ==> list@.contains(RoadID(r2 as usize)),
                forall|k1: int, k2: int|
                    0 <= k1 < k2 < list@.len() ==> (#[trigger] list@[k1]).0 < (
                    #[trigger] list@[k2]).0,
            decreases roads@.len() - r,
        {
            if roads[r].src_i.0 == i || roads[r].dst_i.0 == i {
                let ghost pre = list@;
                list.push(RoadID(r));
                proof {
                    assert forall|r2: int|
                        0 <= r2 < r + 1 && ((#[trigger] roads@[r2]).src_i.0 == i
                            || roads@[r2].dst_i.0 == i) implies list@.contains(
                        RoadID(r2 as usize),
                    ) by {
                        if r2 < r {
                            let k0 = choose|k: int| 0 <= k < pre.len() && pre[k] == RoadID(
                                r2 as usize,
                            );
                            assert(list@[k0] == RoadID(r2 as usize));
                        } else {
                            assert(list@[list@.len() - 1] == RoadID(r as usize));
                        }
                    }
                }
            }
            r += 1;
        }
        let n = &seeds[i];
        let is_signal = list.len() <= 2 || id_listed(&raw.traffic_signal_nodes, n.osm_node_id);
        ints.push(
            Intersection {
                id: IntersectionID(i),
                osm_node_id: n.osm_node_id,
                x_mm: n.x_mm,
                y_mm: n.y_mm,
                elevation_mm: n.elevation_mm,
                roads: list,
                intersection_type: if is_signal {
                    IntersectionType::TrafficSignal
                } else {
                    IntersectionType::StopSign
                },
            },
        );
        i += 1;
    }
    ints
}

/// Whether a plain id list contains an id.
fn id_listed(list: &Vec<u64>, id: u64) -> (r: bool)
    ensures
        r == list@.contains(id),
{
    let mut k: usize = 0;
    while k < list.len()
        invariant
            k <= list@.len(),
            forall|j: int| 0 <= j < k ==> list@[j] != id,
        decreases list@.len() - k,
    {
        if list[k] == id {
            return true;
        }
        k += 1;
    }
    false
}

/// Strict ordering of turn ids: by intersection, then source lane, then
/// destination lane.
pub open spec fn spec_tid_lt(a: TurnID, b: TurnID) -> bool {
    a.parent.0 < b.parent.0 || (a.parent == b.parent && (a.src.0 < b.src.0 || (a.src == b.src
        && a.dst.0 < b.dst.0)))
}

/// The heading change is within 30 degrees of straight ahead exactly when
/// the dot product is positive and tan^2(30) = 1/3 bounds (cross/dot)^2.
pub open spec fn spec_is_straight(in_dx: int, in_dy: int, out_dx: int, out_dy: int) -> bool {
    let cross = in_dx * out_dy - in_dy * out_dx;
    let dot = in_dx * out_dx + in_dy * out_dy;
    dot > 0 && 3 * (cross * cross) <= dot * dot
}

/// The heading change is beyond 150 degrees exactly when the dot product
/// is negative and tan^2(30) bounds (cross/dot)^2 again: a near-reversal.
pub open spec fn spec_is_reversal(in_dx: int, in_dy: int, out_dx: int, out_dy: int) -> bool {
    let cross = in_dx * out_dy - in_dy * out_dx;
    let dot = in_dx * out_dx + in_dy * out_dy;
    dot < 0 && 3 * (cross * cross) <= dot * dot
}

/// How a turn between these two headings is classified: within 30 degrees
/// of straight ahead it is Straight (a crosswalk, between sidewalks);
/// between 30 and 150 degrees the sign of the cross product decides Right
/// or Left; beyond 150 degrees it is a Left (a shared corner, between
/// sidewalks, whenever it does not go straight).
pub open spec fn spec_classify(
    in_dx: int,
    in_dy: int,
    out_dx: int,
    out_dy: int,
    sidewalk: bool,
) -> TurnType {
    let cross = in_dx * out_dy - in_dy * out_dx;
    if sidewalk {
        if spec_is_straight(in_dx, in_dy, out_dx, out_dy) {
            TurnType::Crosswalk
        } else {
            TurnType::SharedSidewalkCorner
        }
    } else {
        if spec_is_straight(in_dx, in_dy, out_dx, out_dy) {
            TurnType::Straight
        } else if spec_is_reversal(in_dx, in_dy, out_dx, out_dy) {
            TurnType::Left
        } else if cross < 0 {
            TurnType::Right
        } else {
            TurnType::Left
        }
    }
}

/// Classify a turn by the heading change between the incoming and outgoing
/// directions, exactly as `spec_classify` says.
fn classify_turn(in_dx: i64, in_dy: i64, out_dx: i64, out_dy: i64, sidewalk: bool) -> (t: TurnType)
    requires
        -20000000 <= in_dx <= 20000000,
        -20000000 <= in_dy <= 20000000,
        -20000000 <= out_dx <= 20000000,
        -20000000 <= out_dy <= 20000000,
    ensures
        t == spec_classify(in_dx as int, in_dy as int, out_dx as int, out_dy as int, sidewalk),
{
    proof {
        assert(in_dx * out_dy <= 400000000000000 && in_dx * out_dy >= -400000000000000
            && in_dy * out_dx <= 400000000000000 && in_dy * out_dx >= -400000000000000 && in_dx
            * out_dx <= 400000000000000 && in_dx * out_dx >= -400000000000000 && in_dy * out_dy
            <= 400000000000000 && in_dy * out_dy >= -400000000000000) by (nonlinear_arith)
            requires
                -20000000 <= in_dx <= 20000000,
                -20000000 <= in_dy <= 20000000,
                -20000000 <= out_dx <= 20000000,
                -20000000 <= out_dy <= 20000000,
        ;
    }
    let cross: i64 = in_dx * out_dy - in_dy * out_dx;
    let dot: i64 = in_dx * out_dx + in_dy * out_dy;
    let cross_w: i128 = cross as i128;
    let dot_w: i128 = dot as i128;
    proof {
        assert(cross_w * cross_w <= 1000000000000000000000000000000 && dot_w * dot_w
            <= 1000000000000000000000000000000 && cross_w * cross_w >= 0 && dot_w * dot_w
            >= 0) by (nonlinear_arith)
            requires
                -800000000000000 <= cross_w <= 800000000000000,
                -800000000000000 <= dot_w <= 800000000000000,
        ;
    }
    let cc: i128 = cross_w * cross_w;
    let dd: i128 = dot_w * dot_w;
    let straight = dot > 0 && 3 * cc <= dd;
    let reversal = dot < 0 && 3 * cc <= dd;
    if sidewalk {
        if straight {
            TurnType::Crosswalk
        } else {
            TurnType::SharedSidewalkCorner
        }
    } else {
        if straight {
            TurnType::Straight
        } else if reversal {
            TurnType::Left
        } else if cross < 0 {
            TurnType::Right
        } else {
            TurnType::Left
        }
    }
}


/// The per-turn consistency that `make_turns` establishes.
pub open spec fn spec_turns_ok(
    turns: Seq<Turn>,
    lanes: Seq<Lane>,
    n_ints: int,
) -> bool {
    &&& forall|j: int|
        0 <= j < turns.len() ==> {
            let t = #[trigger] turns[j];
            &&& t.id.parent.0 < n_ints
            &&& t.id.src.0 < lanes.len()
            &&& t.id.dst.0 < lanes.len()
            &&& lanes[t.id.src.0 as int].dst_i == t.id.parent
            &&& lanes[t.id.dst.0 as int].src_i == t.id.parent
            &&& crate::map::RoadMap::spec_turn_compatible(
                lanes[t.id.src.0 as int].lane_type,
                lanes[t.id.dst.0 as int].lane_type,
            )
            &&& (t.spec_between_sidewalks() <==> lanes[t.id.src.0 as int].lane_type is Sidewalk)
        }
    &&& forall|j1: int, j2: int|
        0 <= j1 < j2 < turns.len() ==> spec_tid_lt(
            (#[trigger] turns[j1]).id,
            (#[trigger] turns[j2]).id,
        )
}

fn lane_compatible(src: LaneType, dst: LaneType) -> (r: bool)
    ensures
        r == crate::map::RoadMap::spec_turn_compatible(src, dst),
{
    match src {
        LaneType::Sidewalk => matches!(dst, LaneType::Sidewalk),
        LaneType::Parking => false,
        _ => matches!(dst, LaneType::Driving | LaneType::Biking | LaneType::Bus),
    }
}

/// The direction a lane moves in as it reaches its destination
/// intersection: the last segment of its road's centerline, oriented with
/// the lane.
pub open spec fn spec_incoming_dir(roads: Seq<Road>, l: Lane) -> (int, int) {
    let road = roads[l.parent.0 as int];
    let pts = road.center_pts@;
    let n = pts.len() as int;
    if road.dst_i == l.dst_i {
        (pts[n - 1].0 - pts[n - 2].0, pts[n - 1].1 - pts[n - 2].1)
    } else {
        (pts[0].0 - pts[1].0, pts[0].1 - pts[1].1)
    }
}

/// The direction a lane moves in as it leaves its source intersection: the
/// first segment of its road's centerline, oriented with the lane.
pub open spec fn spec_outgoing_dir(roads: Seq<Road>, l: Lane) -> (int, int) {
    let road = roads[l.parent.0 as int];
    let pts = road.center_pts@;
    let n = pts.len() as int;
    if road.src_i == l.src_i {
        (pts[1].0 - pts[0].0, pts[1].1 - pts[0].1)
    } else {
        (pts[n - 2].0 - pts[n - 1].0, pts[n - 2].1 - pts[n - 1].1)
    }
}

/// The lane pair (s, d) is a turn candidate at intersection i: s ends
/// there, d starts there, they belong to different roads, and their types
/// may be joined.
pub open spec fn spec_turn_candidate(lanes: Seq<Lane>, i: int, s: int, d: int) -> bool {
    &&& 0 <= s < lanes.len()
    &&& 0 <= d < lanes.len()
    &&& lanes[s].dst_i.0 == i
    &&& lanes[d].src_i.0 == i
    &&& lanes[s].parent != lanes[d].parent
    &&& crate::map::RoadMap::spec_turn_compatible(lanes[s].lane_type, lanes[d].lane_type)
}

/// One turn of the store, fully determined: its id is a candidate pair,
/// its type is the classification of the two lane headings, and its length
/// is the nominal crossing length.
pub open spec fn spec_turn_pinned(t: Turn, lanes: Seq<Lane>, roads: Seq<Road>) -> bool {
    let sl = lanes[t.id.src.0 as int];
    let dl = lanes[t.id.dst.0 as int];
    let din = spec_incoming_dir(roads, sl);
    let dout = spec_outgoing_dir(roads, dl);
    &&& spec_turn_candidate(lanes, t.id.parent.0 as int, t.id.src.0 as int, t.id.dst.0 as int)
    &&& t.turn_type == spec_classify(din.0, din.1, dout.0, dout.1, sl.lane_type is Sidewalk)
    &&& t.length_mm == 2 * crate::LANE_THICKNESS_MM
}

/// The turn set, exactly: every stored turn is a pinned candidate, and
/// every candidate pair at every intersection is stored.
pub open spec fn spec_turns_exact(
    turns: Seq<Turn>,
    lanes: Seq<Lane>,
    roads: Seq<Road>,
    n_ints: int,
) -> bool {
    &&& forall|j: int|
        0 <= j < turns.len() ==> spec_turn_pinned(#[trigger] turns[j], lanes, roads)
    &&& forall|i: int, s: int, d: int|
        0 <= i < n_ints && spec_turn_candidate(lanes, i, s, d) ==> exists|j: int|
            0 <= j < turns.len() && (#[trigger] turns[j]).id == (TurnID {
                parent: IntersectionID(i as usize),
                src: LaneID(s as usize),
                dst: LaneID(d as usize),
            })
}

fn incoming_dir(l: &Lane, roads: &Vec<Road>) -> (d: (i64, i64))
    requires
        l.parent.0 < roads@.len(),
        roads@[l.parent.0 as int].center_pts@.len() >= 2,
        spec_points_ok(roads@[l.parent.0 as int].center_pts@),
    ensures
        -20000000 <= d.0 <= 20000000,
        -20000000 <= d.1 <= 20000000,
        (d.0 as int, d.1 as int) == spec_incoming_dir(roads@, *l),
    {
    let road = &roads[l.parent.0];
    let n = road.center_pts.len();
    if road.dst_i == l.dst_i {
        let a = road.center_pts[n - 2];
        let b = road.center_pts[n - 1];
        ((b.0 as i64) - (a.0 as i64), (b.1 as i64) - (a.1 as i64))
    } else {
        let a = road.center_pts[1];
        let b = road.center_pts[0];
        ((b.0 as i64) - (a.0 as i64), (b.1 as i64) - (a.1 as i64))
    }
}

fn outgoing_dir(l: &Lane, roads: &Vec<Road>) -> (d: (i64, i64))
    requires
        l.parent.0 < roads@.len(),
        roads@[l.parent.0 as int].center_pts@.len() >= 2,
        spec_points_ok(roads@[l.parent.0 as int].center_pts@),
    ensures
        -20000000 <= d.0 <= 20000000,
        -20000000 <= d.1 <= 20000000,
        (d.0 as int, d.1 as int) == spec_outgoing_dir(roads@, *l),
    {
    let road = &roads[l.parent.0];
    let n = road.center_pts.len();
    if road.src_i == l.src_i {
        let a = road.center_pts[0];
        let b = road.center_pts[1];
        ((b.0 as i64) - (a.0 as i64), (b.1 as i64) - (a.1 as i64))
    } else {
        let a = road.center_pts[n - 1];
        let b = road.center_pts[n - 2];
        ((b.0 as i64) - (a.0 as i64), (b.1 as i64) - (a.1 as i64))
    }
}

/// Enumerate every legal turn: at each intersection, each candidate pair
/// of a lane ending there and a lane starting there on another road, with
/// compatible lane types — exactly those, each classified from the lane
/// headings. Intersections, then source lanes, then destination lanes run
/// in ascending order, so the result is sorted and free of duplicates.
#[verifier::rlimit(100)]
pub(crate) fn make_turns(lanes: &Vec<Lane>, roads: &Vec<Road>, n_ints: usize) -> (turns: Vec<Turn>)
    requires
        spec_roads_lanes_ok(roads@, lanes@, n_ints as int),
    ensures
        spec_turns_ok(turns@, lanes@, n_ints as int),
        spec_turns_exact(turns@, lanes@, roads@, n_ints as int),
{
    let mut turns: Vec<Turn> = Vec::new();
    let mut i: usize = 0;
    while i < n_ints
        invariant
            spec_roads_lanes_ok(roads@, lanes@, n_ints as int),
            i <= n_ints,
            spec_turns_ok(turns@, lanes@, n_ints as int),
            forall|j: int| 0 <= j < turns@.len() ==> (#[trigger] turns@[j]).id.parent.0 < i,
            forall|j: int|
                0 <= j < turns@.len() ==> spec_turn_pinned(#[trigger] turns@[j], lanes@, roads@),
            forall|i2: int, s2: int, d2: int|
                0 <= i2 < i && spec_turn_candidate(lanes@, i2, s2, d2) ==> exists|j: int|
                    0 <= j < turns@.len() && (#[trigger] turns@[j]).id == (TurnID {
                        parent: IntersectionID(i2 as usize),
                        src: LaneID(s2 as usize),
                        dst: LaneID(d2 as usize),
                    }),
        decreases n_ints - i,
    {
        let mut s: usize = 0;
        while s < lanes.len()
            invariant
                spec_roads_lanes_ok(roads@, lanes@, n_ints as int),
                i < n_ints,
                s <= lanes@.len(),
                spec_turns_ok(turns@, lanes@, n_ints as int),
                forall|j: int|
                    0 <= j < turns@.len() ==> (#[trigger] turns@[j]).id.parent.0 < i || ((
                    #[trigger] turns@[j]).id.parent.0 == i && turns@[j].id.src.0 < s),
                forall|j: int|
                    0 <= j < turns@.len() ==> spec_turn_pinned(
                        #[trigger] turns@[j],
                        lanes@,
                        roads@,
                    ),
                forall|i2: int, s2: int, d2: int|
                    0 <= i2 < i && spec_turn_candidate(lanes@, i2, s2, d2) ==> exists|j: int|
                        0 <= j < turns@.len() && (#[trigger] turns@[j]).id == (TurnID {
                            parent: IntersectionID(i2 as usize),
                            src: LaneID(s2 as usize),
                            dst: LaneID(d2 as usize),
                        }),
                forall|s2: int, d2: int|
                    0 <= s2 < s && spec_turn_candidate(lanes@, i as int, s2, d2) ==> exists|j: int|
                        0 <= j < turns@.len() && (#[trigger] turns@[j]).id == (TurnID {
                            parent: IntersectionID(i),
                            src: LaneID(s2 as usize),
                            dst: LaneID(d2 as usize),
                        }),
            decreases lanes@.len() - s,
        {
            if lanes[s].dst_i.0 == i {
                let mut d: usize = 0;
                while d < lanes.len()
                    invariant
                        spec_roads_lanes_ok(roads@, lanes@, n_ints as int),
                        i < n_ints,
                        s < lanes@.len(),
                        lanes@[s as int].dst_i.0 == i,
                        d <= lanes@.len(),
                        spec_turns_ok(turns@, lanes@, n_ints as int),
                        forall|j: int|
                            0 <= j < turns@.len() ==> (#[trigger] turns@[j]).id.parent.0 < i || ((
                            #[trigger] turns@[j]).id.parent.0 == i && (turns@[j].id.src.0 < s || (
                            turns@[j].id.src.0 == s && turns@[j].id.dst.0 < d))),
                        forall|j: int|
                            0 <= j < turns@.len() ==> spec_turn_pinned(
                                #[trigger] turns@[j],
                                lanes@,
                                roads@,
                            ),
                        forall|i2: int, s2: int, d2: int|
                            0 <= i2 < i && spec_turn_candidate(lanes@, i2, s2, d2) ==> exists|
                                j: int,
                            |
                                0 <= j < turns@.len() && (#[trigger] turns@[j]).id == (TurnID {
                                    parent: IntersectionID(i2 as usize),
                                    src: LaneID(s2 as usize),
                                    dst: LaneID(d2 as usize),
                                }),
                        forall|s2: int, d2: int|
                            0 <= s2 < s && spec_turn_candidate(lanes@, i as int, s2, d2)
                                ==> exists|j: int|
                                0 <= j < turns@.len() && (#[trigger] turns@[j]).id == (TurnID {
                                    parent: IntersectionID(i),
                                    src: LaneID(s2 as usize),
                                    dst: LaneID(d2 as usize),
                                }),
                        forall|d2: int|
                            0 <= d2 < d && spec_turn_candidate(lanes@, i as int, s as int, d2)
                                ==> exists|j: int|
                                0 <= j < turns@.len() && (#[trigger] turns@[j]).id == (TurnID {
                                    parent: IntersectionID(i),
                                    src: LaneID(s),
                                    dst: LaneID(d2 as usize),
                                }),
                    decreases lanes@.len() - d,
                {
                    if lanes[d].src_i.0 == i && lanes[d].parent.0 != lanes[s].parent.0
                        && lane_compatible(lanes[s].lane_type, lanes[d].lane_type) {
                        let din = incoming_dir(&lanes[s], roads);
                        let dout = outgoing_dir(&lanes[d], roads);
                        let is_sidewalk = lanes[s].is_sidewalk();
                        let tt = classify_turn(din.0, din.1, dout.0, dout.1, is_sidewalk);
                        let ghost pre = turns@;
                        turns.push(
                            Turn {
                                id: TurnID {
                                    parent: IntersectionID(i),
                                    src: LaneID(s),
                                    dst: LaneID(d),
                                },
                                turn_type: tt,
                                length_mm: 2 * crate::LANE_THICKNESS_MM,
                            },
                        );
                        proof {
                            assert forall|j1: int, j2: int|
                                0 <= j1 < j2 < turns@.len() implies spec_tid_lt(
                                (#[trigger] turns@[j1]).id,
                                (#[trigger] turns@[j2]).id,
                            ) by {
                                if j2 == turns@.len() - 1 {
                                    assert(turns@[j1] == pre[j1]);
                                }
                            }
                            assert(spec_turn_pinned(
                                turns@[turns@.len() - 1],
                                lanes@,
                                roads@,
                            ));
                            assert forall|i2: int, s2: int, d2: int|
                                0 <= i2 < i && spec_turn_candidate(
                                    lanes@,
                                    i2,
                                    s2,
                                    d2,
                                ) implies exists|j: int|
                                0 <= j < turns@.len() && (#[trigger] turns@[j]).id == (TurnID {
                                    parent: IntersectionID(i2 as usize),
                                    src: LaneID(s2 as usize),
                                    dst: LaneID(d2 as usize),
                                }) by {
                                let want = TurnID {
                                    parent: IntersectionID(i2 as usize),
                                    src: LaneID(s2 as usize),
                                    dst: LaneID(d2 as usize),
                                };
                                let j0 = choose|j: int|
                                    0 <= j < pre.len() && (#[trigger] pre[j]).id == want;
                                assert(turns@[j0].id == want);
                            }
                            assert forall|s2: int, d2: int|
                                0 <= s2 < s && spec_turn_candidate(
                                    lanes@,
                                    i as int,
                                    s2,
                                    d2,
                                ) implies exists|j: int|
                                0 <= j < turns@.len() && (#[trigger] turns@[j]).id == (TurnID {
                                    parent: IntersectionID(i),
                                    src: LaneID(s2 as usize),
                                    dst: LaneID(d2 as usize),
                                }) by {
                                let want = TurnID {
                                    parent: IntersectionID(i),
                                    src: LaneID(s2 as usize),
                                    dst: LaneID(d2 as usize),
                                };
                                let j0 = choose|j: int|
                                    0 <= j < pre.len() && (#[trigger] pre[j]).id == want;
                                assert(turns@[j0].id == want);
                            }
                            assert forall|d2: int|
                                0 <= d2 < d && spec_turn_candidate(
                                    lanes@,
                                    i as int,
                                    s as int,
                                    d2,
                                ) implies exists|j: int|
                                0 <= j < turns@.len() && (#[trigger] turns@[j]).id == (TurnID {
                                    parent: IntersectionID(i),
                                    src: LaneID(s),
                                    dst: LaneID(d2 as usize),
                                }) by {
                                let want = TurnID {
                                    parent: IntersectionID(i),
                                    src: LaneID(s),
                                    dst: LaneID(d2 as usize),
                                };
                                let j0 = choose|j: int|
                                    0 <= j < pre.len() && (#[trigger] pre[j]).id == want;
                                assert(turns@[j0].id == want);
                            }
                        }
                    } else {
                        proof {
                            assert(!spec_turn_candidate(lanes@, i as int, s as int, d as int));
                        }
                    }
                    d += 1;
                }
            } else {
                proof {
                    assert forall|d2: int|
                        0 <= d2 < lanes@.len() implies !spec_turn_candidate(
                        lanes@,
                        i as int,
                        s as int,
                        d2,
                    ) by {
                        assert(lanes@[s as int].dst_i.0 != i);
                    }
                }
            }
            s += 1;
        }
        i += 1;
    }
    turns
}

/// One stop-sign policy consistent with the given store pieces.
pub open spec fn spec_ss_ok(ss: ControlStopSign, ints: Seq<Intersection>, turns: Seq<Turn>) -> bool {
    &&& ss.id.0 < ints.len()
    &&& ints[ss.id.0 as int].intersection_type is StopSign
    &&& ss.spec_distinct()
    &&& forall|k: int|
        0 <= k < ss.turns@.len() ==> {
            let e = #[trigger] ss.turns@[k];
            &&& e.0.parent == ss.id
            &&& (exists|j: int| 0 <= j < turns.len() && (#[trigger] turns[j]).id == e.0)
            &&& !(e.1 is Banned)
        }
    &&& forall|j: int|
        0 <= j < turns.len() && (#[trigger] turns[j]).id.parent == ss.id ==> ss.spec_covers(
            turns[j].id,
        )
}

/// One signal policy consistent with the given store pieces.
pub open spec fn spec_ts_ok(
    ts: ControlTrafficSignal,
    ints: Seq<Intersection>,
    turns: Seq<Turn>,
) -> bool {
    &&& ts.id.0 < ints.len()
    &&& ints[ts.id.0 as int].intersection_type is TrafficSignal
    &&& ts.cycles@.len() >= 1
    &&& forall|c: int|
        0 <= c < ts.cycles@.len() ==> {
            let cy = #[trigger] ts.cycles@[c];
            &&& cy.parent == ts.id
            &&& cy.duration_s > 0
            &&& cy.spec_distinct()
            &&& forall|k: int|
                0 <= k < cy.priorities@.len() ==> {
                    let e = #[trigger] cy.priorities@[k];
                    &&& e.0.parent == ts.id
                    &&& (exists|j: int| 0 <= j < turns.len() && (#[trigger] turns[j]).id == e.0)
                }
            &&& forall|j: int|
                0 <= j < turns.len() && (#[trigger] turns[j]).id.parent == ts.id
                    ==> cy.spec_covers(turns[j].id)
            &&& forall|k1: int, k2: int|
                0 <= k1 < k2 < cy.priorities@.len() && (#[trigger] cy.priorities@[k1]).1 is Priority
                    && (#[trigger] cy.priorities@[k2]).1 is Priority ==> cy.priorities@[k1].0.dst
                    != cy.priorities@[k2].0.dst
        }
    &&& forall|j: int|
        0 <= j < turns.len() && (#[trigger] turns[j]).id.parent == ts.id
            ==> ts.spec_some_cycle_prioritizes(turns[j].id)
}

/// Build the default control policy for every intersection: stop signs
/// give way to the smallest incident road; signals run one green phase per
/// turn (and at least two phases), so no two turns merging into the same
/// lane are ever green together.
#[verifier::rlimit(100)]
pub(crate) fn make_controls(
    ints: &Vec<Intersection>,
    turns: &Vec<Turn>,
    lanes: &Vec<Lane>,
) -> (r: (Vec<ControlStopSign>, Vec<ControlTrafficSignal>))
    requires
        forall|i: int|
            0 <= i < ints@.len() ==> (#[trigger] ints@[i]).id.0 == i && (ints@[
                i
            ].intersection_type is StopSign || ints@[i].intersection_type is TrafficSignal),
        forall|j: int|
            0 <= j < turns@.len() ==> (#[trigger] turns@[j]).id.parent.0 < ints@.len() && turns@[
                j
            ].id.src.0 < lanes@.len(),
        forall|j1: int, j2: int|
            0 <= j1 < j2 < turns@.len() ==> (#[trigger] turns@[j1]).id != (
            #[trigger] turns@[j2]).id,
    ensures
        forall|s: int|
            0 <= s < r.0@.len() ==> spec_ss_ok(#[trigger] r.0@[s], ints@, turns@),
        forall|s1: int, s2: int|
            0 <= s1 < s2 < r.0@.len() ==> (#[trigger] r.0@[s1]).id.0 < (#[trigger] r.0@[s2]).id.0,
        forall|i: int|
            0 <= i < ints@.len() && (#[trigger] ints@[i]).intersection_type is StopSign ==> exists|
                s: int,
            | 0 <= s < r.0@.len() && (#[trigger] r.0@[s]).id.0 == i,
        forall|g: int|
            0 <= g < r.1@.len() ==> spec_ts_ok(#[trigger] r.1@[g], ints@, turns@),
        forall|g1: int, g2: int|
            0 <= g1 < g2 < r.1@.len() ==> (#[trigger] r.1@[g1]).id.0 < (#[trigger] r.1@[g2]).id.0,
        forall|i: int|
            0 <= i < ints@.len() && (#[trigger] ints@[i]).intersection_type is TrafficSignal
                ==> exists|g: int| 0 <= g < r.1@.len() && (#[trigger] r.1@[g]).id.0 == i,
{
    let mut stop_signs: Vec<ControlStopSign> = Vec::new();
    let mut signals: Vec<ControlTrafficSignal> = Vec::new();
    let mut i: usize = 0;
    while i < ints.len()
        invariant
            forall|i2: int|
                0 <= i2 < ints@.len() ==> (#[trigger] ints@[i2]).id.0 == i2 && (ints@[
                    i2
                ].intersection_type is StopSign || ints@[i2].intersection_type is TrafficSignal),
            forall|j: int|
                0 <= j < turns@.len() ==> (#[trigger] turns@[j]).id.parent.0 < ints@.len()
                    && turns@[j].id.src.0 < lanes@.len(),
            forall|j1: int, j2: int|
                0 <= j1 < j2 < turns@.len() ==> (#[trigger] turns@[j1]).id != (
                #[trigger] turns@[j2]).id,
            i <= ints@.len(),
            forall|s: int|
                0 <= s < stop_signs@.len() ==> spec_ss_ok(
                    #[trigger] stop_signs@[s],
                    ints@,
                    turns@,
                ),
            forall|s: int|
                0 <= s < stop_signs@.len() ==> (#[trigger] stop_signs@[s]).id.0 < i,
            forall|s1: int, s2: int|
                0 <= s1 < s2 < stop_signs@.len() ==> (#[trigger] stop_signs@[s1]).id.0 < (
                #[trigger] stop_signs@[s2]).id.0,
            forall|i2: int|
                0 <= i2 < i && (#[trigger] ints@[i2]).intersection_type is StopSign ==> exists|
                    s: int,
                | 0 <= s < stop_signs@.len() && (#[trigger] stop_signs@[s]).id.0 == i2,
            forall|g: int|
                0 <= g < signals@.len() ==> spec_ts_ok(#[trigger] signals@[g], ints@, turns@),
            forall|g: int| 0 <= g < signals@.len() ==> (#[trigger] signals@[g]).id.0 < i,
            forall|g1: int, g2: int|
                0 <= g1 < g2 < signals@.len() ==> (#[trigger] signals@[g1]).id.0 < (
                #[trigger] signals@[g2]).id.0,
            forall|i2: int|
                0 <= i2 < i && (#[trigger] ints@[i2]).intersection_type is TrafficSignal
                    ==> exists|g: int|
                    0 <= g < signals@.len() && (#[trigger] signals@[g]).id.0 == i2,
        decreases ints@.len() - i,
    {
        let node = &ints[i];
        let mut local: Vec<TurnID> = Vec::new();
        let mut j: usize = 0;
        while j < turns.len()
            invariant
                forall|j3: int|
                    0 <= j3 < turns@.len() ==> (#[trigger] turns@[j3]).id.parent.0 < ints@.len()
                        && turns@[j3].id.src.0 < lanes@.len(),
                forall|j1: int, j2: int|
                    0 <= j1 < j2 < turns@.len() ==> (#[trigger] turns@[j1]).id != (
                    #[trigger] turns@[j2]).id,
                i < ints@.len(),
                j <= turns@.len(),
                forall|k: int|
                    0 <= k < local@.len() ==> (#[trigger] local@[k]).parent.0 == i && exists|
                        j2: int,
                    | 0 <= j2 < j && (#[trigger] turns@[j2]).id == local@[k],
                forall|k1: int, k2: int|
                    0 <= k1 < k2 < local@.len() ==> (#[trigger] local@[k1]) != (
                    #[trigger] local@[k2]),
                forall|j2: int|
                    0 <= j2 < j && (#[trigger] turns@[j2]).id.parent.0 == i ==> local@.contains(
                        turns@[j2].id,
                    ),
                forall|k: int|
                    0 <= k < local@.len() ==> (#[trigger] local@[k]).src.0 < lanes@.len(),
            decreases turns@.len() - j,
        {
            if turns[j].id.parent.0 == i {
                let ghost pre = local@;
                local.push(turns[j].id);
                proof {
                    assert forall|k1: int, k2: int|
                        0 <= k1 < k2 < local@.len() implies (#[trigger] local@[k1]) != (
                    #[trigger] local@[k2]) by {
                        if k2 == local@.len() - 1 {
                            let jw = choose|j2: int|
                                0 <= j2 < j && (#[trigger] turns@[j2]).id == pre[k1];
                            assert(turns@[jw].id != turns@[j as int].id);
                        }
                    }
                    assert forall|j2: int|
                        0 <= j2 < j + 1 && (#[trigger] turns@[j2]).id.parent.0 == i implies local@.contains(
                        turns@[j2].id,
                    ) by {
                        if j2 < j {
                            let k0 = choose|k: int| 0 <= k < pre.len() && pre[k] == turns@[j2].id;
                            assert(local@[k0] == turns@[j2].id);
                        } else {
                            assert(local@[local@.len() - 1] == turns@[j2].id);
                        }
                    }
                }
            }
            j += 1;
        }
        if matches!(node.intersection_type, IntersectionType::StopSign) {
            let major: Option<RoadID> = if node.roads.len() >= 1 {
                Some(node.roads[0])
            } else {
                None
            };
            let mut entries: Vec<(TurnID, TurnPriority)> = Vec::new();
            let mut k: usize = 0;
            while k < local.len()
                invariant
                    i < ints@.len(),
                    k <= local@.len(),
                    entries@.len() == k,
                    forall|k2: int|
                        0 <= k2 < k ==> (#[trigger] entries@[k2]).0 == local@[k2] && !(entries@[
                            k2
                        ].1 is Banned),
                    forall|k2: int|
                        0 <= k2 < local@.len() ==> (#[trigger] local@[k2]).src.0 < lanes@.len(),
                decreases local@.len() - k,
            {
                let tid = local[k];
                let pri = match major {
                    Some(m) => {
                        if lanes[tid.src.0].parent == m {
                            TurnPriority::Priority
                        } else {
                            TurnPriority::Stop
                        }
                    },
                    None => TurnPriority::Stop,
                };
                entries.push((tid, pri));
                k += 1;
            }
            let ss = ControlStopSign { id: IntersectionID(i), turns: entries };
            proof {
                assert forall|k1: int, k2: int|
                    0 <= k1 < k2 < ss.turns@.len() implies (#[trigger] ss.turns@[k1]).0 != (
                #[trigger] ss.turns@[k2]).0 by {
                    assert(local@[k1] != local@[k2]);
                }
                assert forall|j2: int|
                    0 <= j2 < turns@.len() && (#[trigger] turns@[j2]).id.parent == ss.id implies ss.spec_covers(
                    turns@[j2].id,
                ) by {
                    let k0 = choose|k2: int| 0 <= k2 < local@.len() && local@[k2] == turns@[
                        j2
                    ].id;
                    assert(ss.turns@[k0].0 == turns@[j2].id);
                }
                assert(spec_ss_ok(ss, ints@, turns@));
            }
            let ghost pre_ss = stop_signs@;
            stop_signs.push(ss);
            proof {
                assert forall|i2: int|
                    0 <= i2 <= i && (#[trigger] ints@[i2]).intersection_type is StopSign implies exists|
                    s2: int,
                |
                    0 <= s2 < stop_signs@.len() && (#[trigger] stop_signs@[s2]).id.0 == i2 by {
                    if i2 < i {
                        let s0 = choose|s2: int|
                            0 <= s2 < pre_ss.len() && (#[trigger] pre_ss[s2]).id.0 == i2;
                        assert(stop_signs@[s0].id.0 == i2);
                    } else {
                        assert(stop_signs@[stop_signs@.len() - 1].id.0 == i2);
                    }
                }
            }
        } else {
            let n_local = local.len();
            let n_cycles = if n_local < 2 {
                2
            } else {
                n_local
            };
            let mut cycles: Vec<Cycle> = Vec::new();
            let mut c: usize = 0;
            while c < n_cycles
                invariant
                    i < ints@.len(),
                    c <= n_cycles,
                    n_cycles >= 2,
                    n_local == local@.len(),
                    n_cycles == if n_local < 2 { 2int } else { n_local as int },
                    cycles@.len() == c,
                    forall|k2: int|
                        0 <= k2 < local@.len() ==> (#[trigger] local@[k2]).parent.0 == i,
                    forall|k1: int, k2: int|
                        0 <= k1 < k2 < local@.len() ==> (#[trigger] local@[k1]) != (
                        #[trigger] local@[k2]),
                    forall|c2: int|
                        0 <= c2 < c ==> {
                            let cy = #[trigger] cycles@[c2];
                            &&& cy.parent.0 == i
                            &&& cy.duration_s == 30
                            &&& cy.priorities@.len() == local@.len()
                            &&& forall|k2: int|
                                0 <= k2 < cy.priorities@.len() ==> (#[trigger] cy.priorities@[
                                    k2
                                ]).0 == local@[k2] && (cy.priorities@[k2].1 is Priority <==> k2
                                    == c2)
                        },
                decreases n_cycles - c,
            {
                let mut pri: Vec<(TurnID, TurnPriority)> = Vec::new();
                let mut k: usize = 0;
                while k < local.len()
                    invariant
                        i < ints@.len(),
                        k <= local@.len(),
                        c < n_cycles,
                        pri@.len() == k,
                        forall|k2: int|
                            0 <= k2 < k ==> (#[trigger] pri@[k2]).0 == local@[k2] && (pri@[
                                k2
                            ].1 is Priority <==> k2 == c),
                    decreases local@.len() - k,
                {
                    pri.push(
                        (
                            local[k],
                            if k == c {
                                TurnPriority::Priority
                            } else {
                                TurnPriority::Yield
                            },
                        ),
                    );
                    k += 1;
                }
                cycles.push(Cycle { parent: IntersectionID(i), priorities: pri, duration_s: 30 });
                c += 1;
            }
            let ts = ControlTrafficSignal { id: IntersectionID(i), cycles };
            proof {
                assert forall|j2: int|
                    0 <= j2 < turns@.len() && (#[trigger] turns@[j2]).id.parent == ts.id implies ts.spec_some_cycle_prioritizes(
                    turns@[j2].id,
                ) by {
                    let k0 = choose|k2: int| 0 <= k2 < local@.len() && local@[k2] == turns@[
                        j2
                    ].id;
                    let e = ts.cycles@[k0].priorities@[k0];
                    assert(e.0 == turns@[j2].id && e.1 == TurnPriority::Priority);
                    assert(e == (turns@[j2].id, TurnPriority::Priority));
                    assert(ts.cycles@[k0].spec_gives_priority(turns@[j2].id));
                }
                assert forall|c2: int, j2: int|
                    0 <= c2 < ts.cycles@.len() && 0 <= j2 < turns@.len() && (
                    #[trigger] turns@[j2]).id.parent == ts.id implies (
                #[trigger] ts.cycles@[c2]).spec_covers(turns@[j2].id) by {
                    let k0 = choose|k2: int| 0 <= k2 < local@.len() && local@[k2] == turns@[
                        j2
                    ].id;
                    assert(ts.cycles@[c2].priorities@[k0].0 == turns@[j2].id);
                }
                assert forall|c2: int, k1: int, k2: int|
                    0 <= c2 < ts.cycles@.len() && 0 <= k1 < k2 < (
                    #[trigger] ts.cycles@[c2]).priorities@.len() implies (
                #[trigger] ts.cycles@[c2].priorities@[k1]).0 != (
                #[trigger] ts.cycles@[c2].priorities@[k2]).0 by {
                    assert(local@[k1] != local@[k2]);
                }
                assert(spec_ts_ok(ts, ints@, turns@));
            }
            let ghost pre_ts = signals@;
            signals.push(ts);
            proof {
                assert forall|i2: int|
                    0 <= i2 <= i && (#[trigger] ints@[i2]).intersection_type is TrafficSignal implies exists|
                    g2: int,
                |
                    0 <= g2 < signals@.len() && (#[trigger] signals@[g2]).id.0 == i2 by {
                    if i2 < i {
                        let g0 = choose|g2: int|
                            0 <= g2 < pre_ts.len() && (#[trigger] pre_ts[g2]).id.0 == i2;
                        assert(signals@[g0].id.0 == i2);
                    } else {
                        assert(signals@[signals@.len() - 1].id.0 == i2);
                    }
                }
            }
        }
        i += 1;
    }
    proof {
        assert forall|i2: int|
            0 <= i2 < ints@.len() && (
            #[trigger] ints@[i2]).intersection_type is TrafficSignal implies exists|g: int|
            0 <= g < signals@.len() && (#[trigger] signals@[g]).id.0 == i2 by {
            assert(i2 < i);
        }
        assert forall|i2: int|
            0 <= i2 < ints@.len() && (
            #[trigger] ints@[i2]).intersection_type is StopSign implies exists|s: int|
            0 <= s < stop_signs@.len() && (#[trigger] stop_signs@[s]).id.0 == i2 by {
            assert(i2 < i);
        }
    }
    (stop_signs, signals)
}


/// Snap a point to the road polyline backing an indexed lane: the arc
/// length at the first vertex equal to `pt`, or the lane's start when the
/// vertex is not on the polyline.
fn dist_along_at(road: &Road, pt: (u64, u64)) -> (d: u64)
    requires
        road.center_pts@.len() >= 2,
        road.center_pts@.len() <= 100000,
        spec_points_ok(road.center_pts@),
        road.length_mm == crate::geometry::spec_polyline_len(
            road.center_pts@,
            road.center_pts@.len() as int,
        ),
    ensures
        d <= road.length_mm,
{
    let (_total, prefix) = crate::geometry::polyline_len(&road.center_pts);
    let mut k: usize = 0;
    while k < road.center_pts.len()
        invariant
            prefix@.len() == road.center_pts@.len(),
            forall|i: int|
                0 <= i < prefix@.len() ==> (#[trigger] prefix@[i]) <= crate::geometry::spec_polyline_len(
                    road.center_pts@,
                    road.center_pts@.len() as int,
                ),
            road.length_mm == crate::geometry::spec_polyline_len(
                road.center_pts@,
                road.center_pts@.len() as int,
            ),
            k <= road.center_pts@.len(),
        decreases road.center_pts@.len() - k,
    {
        if road.center_pts[k].0 == pt.0 && road.center_pts[k].1 == pt.1 {
            return prefix[k];
        }
        k += 1;
    }
    0
}

/// Build a `RoadMap` from checked raw input. Succeeds exactly when
/// `check_raw` does; the result then satisfies the store's full
/// consistency invariant. The whole pipeline is a pure function of the raw
/// input: every collection is walked in an order keyed by stable ids, so
/// two runs over the same input build identical maps.
#[verifier::rlimit(100)]
pub fn convert(raw: &RawMap) -> (r: Result<RoadMap, MapError>)
    ensures
        r is Ok <==> raw.spec_shape_ok() && raw.spec_refs_ok(),
        r matches Ok(m) ==> m.wf(),
        r matches Err(e) ==> ((e matches MapError::InputMalformed(_) <==> !raw.spec_shape_ok()) && (
        e matches MapError::Inconsistent(_) <==> raw.spec_shape_ok() && !raw.spec_refs_ok())),
        r matches Ok(m) ==> spec_fabrication_ok(m.roads@, m.lanes@),
        r matches Ok(m) ==> spec_turns_exact(
            m.turns@,
            m.lanes@,
            m.roads@,
            m.intersections@.len() as int,
        ),
        r matches Ok(m) ==> forall|i: int|
            0 <= i < m.roads@.len() ==> exists|w: int|
                0 <= w < raw.ways@.len() && (#[trigger] raw.ways@[w]).osm_way_id == (
                #[trigger] m.roads@[i]).osm_way_id && m.roads@[i].osm_tags@ == raw.ways@[
                    w
                ].osm_tags@,
        r matches Ok(m) ==> forall|j: int|
            0 <= j < raw.nodes@.len() && spec_is_int_node(
                *raw,
                (#[trigger] raw.nodes@[j]).osm_node_id,
            ) ==> exists|k: int|
                0 <= k < m.intersections@.len() && (#[trigger] m.intersections@[k]).osm_node_id
                    == raw.nodes@[j].osm_node_id,
        r matches Ok(m) ==> forall|k: int|
            0 <= k < m.intersections@.len() ==> ((
            #[trigger] m.intersections@[k]).intersection_type is TrafficSignal <==> (
            m.intersections@[k].roads@.len() <= 2 || raw.traffic_signal_nodes@.contains(
                m.intersections@[k].osm_node_id,
            ))),
{
    match crate::raw_data::check_raw(raw) {
        Err(e) => {
            return Err(e);
        },
        Ok(()) => {},
    }
    let seeds = build_intersection_seeds(raw);
    let segs = build_segments(raw, &seeds);
    let (roads, lanes) = build_roads_and_lanes(&segs, seeds.len());
    let ints = attach_intersections(&seeds, &roads, raw);
    let turns = make_turns(&lanes, &roads, ints.len());
    proof {
        assert forall|j1: int, j2: int|
            0 <= j1 < j2 < turns@.len() implies (#[trigger] turns@[j1]).id != (
        #[trigger] turns@[j2]).id by {
            assert(spec_tid_lt(turns@[j1].id, turns@[j2].id));
        }
    }
    let (stop_signs, traffic_signals) = make_controls(&ints, &turns, &lanes);

    let mut index = crate::find_closest::FindClosest::new();
    let mut j: usize = 0;
    while j < lanes.len()
        invariant
            spec_roads_lanes_ok(roads@, lanes@, ints@.len() as int),
            j <= lanes@.len(),
            index.wf(),
            forall|e: int|
                0 <= e < index.entries@.len() ==> {
                    let en = #[trigger] index.entries@[e];
                    &&& en.id < lanes@.len()
                    &&& lanes@[en.id as int].lane_type is Sidewalk
                },
        decreases lanes@.len() - j,
    {
        if lanes[j].is_sidewalk() {
            let pts = copy_points(&roads[lanes[j].parent.0].center_pts);
            index.add(j as u64, pts);
        }
        j += 1;
    }

    let mut bus_stops: Vec<BusStop> = Vec::new();
    let mut k: usize = 0;
    while k < raw.bus_stops.len()
        invariant
            raw.spec_shape_ok(),
            spec_roads_lanes_ok(roads@, lanes@, ints@.len() as int),
            index.wf(),
            forall|e: int|
                0 <= e < index.entries@.len() ==> {
                    let en = #[trigger] index.entries@[e];
                    &&& en.id < lanes@.len()
                    &&& lanes@[en.id as int].lane_type is Sidewalk
                },
            k <= raw.bus_stops@.len(),
            forall|b: int|
                0 <= b < bus_stops@.len() ==> {
                    let st = #[trigger] bus_stops@[b];
                    &&& st.id.0 == b
                    &&& st.sidewalk.0 < lanes@.len()
                    &&& lanes@[st.sidewalk.0 as int].lane_type is Sidewalk
                    &&& st.dist_along_mm <= lanes@[st.sidewalk.0 as int].length_mm
                    &&& exists|rs: int|
                        0 <= rs < raw.bus_stops@.len() && (
                        #[trigger] raw.bus_stops@[rs]).gtfs_stop_id == st.gtfs_stop_id
                },
        decreases raw.bus_stops@.len() - k,
    {
        let st = raw.bus_stops[k];
        match index.closest_pt(st.x_mm, st.y_mm, 50000) {
            Some((lid, pt, _d)) => {
                proof {
                    let ew = choose|e: int|
                        0 <= e < index.entries@.len() && (#[trigger] index.entries@[e]).id == lid
                            && index.spec_entry_d2(e, st.x_mm, st.y_mm) == crate::geometry::spec_dist2(
                            pt.0,
                            pt.1,
                            st.x_mm,
                            st.y_mm,
                        );
                    assert(index.entries@[ew].id < lanes@.len());
                }
                let lane_idx = lid as usize;
                let road = &roads[lanes[lane_idx].parent.0];
                let dist = dist_along_at(road, pt);
                bus_stops.push(
                    BusStop {
                        id: BusStopID(bus_stops.len()),
                        gtfs_stop_id: st.gtfs_stop_id,
                        sidewalk: LaneID(lane_idx),
                        dist_along_mm: dist,
                    },
                );
            },
            None => {},
        }
        k += 1;
    }

    let mut bus_routes: Vec<BusRoute> = Vec::new();
    let mut k: usize = 0;
    while k < raw.bus_routes.len()
        invariant
            raw.spec_shape_ok(),
            k <= raw.bus_routes@.len(),
            forall|b: int|
                0 <= b < bus_routes@.len() ==> {
                    let rt = #[trigger] bus_routes@[b];
                    &&& rt.id.0 == b
                    &&& rt.stops@.len() >= 1
                    &&& forall|k2: int|
                        0 <= k2 < rt.stops@.len() ==> (#[trigger] rt.stops@[k2]).0
                            < bus_stops@.len()
                    &&& exists|rr: int|
                        0 <= rr < raw.bus_routes@.len() && rt.name == (
                        #[trigger] raw.bus_routes@[rr]).name && rt.stops@.len()
                            == raw.bus_routes@[rr].stops@.len() && (forall|k2: int|
                            0 <= k2 < rt.stops@.len() ==> bus_stops@[(
                            #[trigger] rt.stops@[k2]).0 as int].gtfs_stop_id == raw.bus_routes@[
                                rr
                            ].stops@[k2])
                },
        decreases raw.bus_routes@.len() - k,
    {
        let route = &raw.bus_routes[k];
        let mut resolved: Vec<BusStopID> = Vec::new();
        let mut ok = true;
        let mut k2: usize = 0;
        while k2 < route.stops.len()
            invariant
                k < raw.bus_routes@.len(),
                route == raw.bus_routes@[k as int],
                k2 <= route.stops@.len(),
                ok ==> resolved@.len() == k2,
                forall|k3: int|
                    0 <= k3 < resolved@.len() ==> (#[trigger] resolved@[k3]).0 < bus_stops@.len(),
                ok ==> forall|k3: int|
                    0 <= k3 < resolved@.len() ==> bus_stops@[(#[trigger] resolved@[k3]).0 as int].gtfs_stop_id
                        == route.stops@[k3],
            decreases route.stops@.len() - k2,
        {
            match find_built_stop(&bus_stops, route.stops[k2]) {
                Some(idx) => {
                    resolved.push(BusStopID(idx));
                },
                None => {
                    ok = false;
                },
            }
            k2 += 1;
        }
        if ok && resolved.len() >= 1 {
            let nr = BusRoute {
                id: BusRouteID(bus_routes.len()),
                name: route.name.clone(),
                stops: resolved,
            };
            let ghost pre_routes = bus_routes@;
            bus_routes.push(nr);
            proof {
                assert(bus_routes@[bus_routes@.len() - 1].name == raw.bus_routes@[k as int].name);
                assert forall|b: int|
                    0 <= b < bus_routes@.len() implies {
                    let rt = #[trigger] bus_routes@[b];
                    exists|rr: int|
                        0 <= rr < raw.bus_routes@.len() && rt.name == (
                        #[trigger] raw.bus_routes@[rr]).name && rt.stops@.len()
                            == raw.bus_routes@[rr].stops@.len() && (forall|k2: int|
                            0 <= k2 < rt.stops@.len() ==> bus_stops@[(
                            #[trigger] rt.stops@[k2]).0 as int].gtfs_stop_id == raw.bus_routes@[
                                rr
                            ].stops@[k2])
                } by {
                    if b < pre_routes.len() {
                        let rt0 = pre_routes[b];
                        let rr0 = choose|rr: int|
                            0 <= rr < raw.bus_routes@.len() && rt0.name == (
                            #[trigger] raw.bus_routes@[rr]).name && rt0.stops@.len()
                                == raw.bus_routes@[rr].stops@.len() && (forall|k2: int|
                                0 <= k2 < rt0.stops@.len() ==> bus_stops@[(
                                #[trigger] rt0.stops@[k2]).0 as int].gtfs_stop_id
                                == raw.bus_routes@[rr].stops@[k2]);
                        assert(bus_routes@[b] == rt0);
                        assert(bus_routes@[b].name == raw.bus_routes@[rr0].name);
                    } else {
                        assert(bus_routes@[b].name == raw.bus_routes@[k as int].name);
                    }
                }
            }
        }
        k += 1;
    }

    let mut buildings: Vec<Building> = Vec::new();
    let mut k: usize = 0;
    while k < raw.buildings.len()
        invariant
            raw.spec_shape_ok(),
            spec_roads_lanes_ok(roads@, lanes@, ints@.len() as int),
            index.wf(),
            forall|e: int|
                0 <= e < index.entries@.len() ==> {
                    let en = #[trigger] index.entries@[e];
                    &&& en.id < lanes@.len()
                    &&& lanes@[en.id as int].lane_type is Sidewalk
                },
            k <= raw.buildings@.len(),
            forall|b: int|
                0 <= b < buildings@.len() ==> {
                    let bl = #[trigger] buildings@[b];
                    &&& bl.id.0 == b
                    &&& bl.front_path.sidewalk.0 < lanes@.len()
                    &&& lanes@[bl.front_path.sidewalk.0 as int].lane_type is Sidewalk
                    &&& bl.front_path.dist_along_mm <= lanes@[
                        bl.front_path.sidewalk.0 as int
                    ].length_mm
                },
        decreases raw.buildings@.len() - k,
    {
        let b = &raw.buildings[k];
        let (cx, cy) = centroid(&b.points);
        match index.closest_pt(cx, cy, 100000) {
            Some((lid, pt, _d)) => {
                proof {
                    let ew = choose|e: int|
                        0 <= e < index.entries@.len() && (#[trigger] index.entries@[e]).id == lid
                            && index.spec_entry_d2(e, cx, cy) == crate::geometry::spec_dist2(
                            pt.0,
                            pt.1,
                            cx,
                            cy,
                        );
                    assert(index.entries@[ew].id < lanes@.len());
                }
                let lane_idx = lid as usize;
                let road = &roads[lanes[lane_idx].parent.0];
                let dist = dist_along_at(road, pt);
                buildings.push(
                    Building {
                        id: BuildingID(buildings.len()),
                        osm_way_id: b.osm_way_id,
                        osm_tags: clone_tags(&b.osm_tags),
                        x_mm: cx,
                        y_mm: cy,
                        front_path: FrontPath { sidewalk: LaneID(lane_idx), dist_along_mm: dist },
                    },
                );
            },
            None => {},
        }
        k += 1;
    }

    let mut parcels: Vec<Parcel> = Vec::new();
    let mut k: usize = 0;
    while k < raw.parcels.len()
        invariant
            k <= raw.parcels@.len(),
            forall|p: int| 0 <= p < parcels@.len() ==> (#[trigger] parcels@[p]).id.0 == p,
        decreases raw.parcels@.len() - k,
    {
        parcels.push(Parcel { id: ParcelID(parcels.len()), points: copy_points(&raw.parcels[k].points) });
        k += 1;
    }

    let mut areas: Vec<Area> = Vec::new();
    let mut k: usize = 0;
    while k < raw.areas.len()
        invariant
            k <= raw.areas@.len(),
            forall|a: int| 0 <= a < areas@.len() ==> (#[trigger] areas@[a]).id.0 == a,
        decreases raw.areas@.len() - k,
    {
        let a = &raw.areas[k];
        let area_type = if tag_is(&a.osm_tags, "natural", "water") || tag_is(
            &a.osm_tags,
            "waterway",
            "riverbank",
        ) {
            AreaType::Water
        } else if tag_is(&a.osm_tags, "natural", "wood") {
            AreaType::Wood
        } else {
            AreaType::Park
        };
        areas.push(
            Area {
                id: AreaID(areas.len()),
                area_type,
                osm_way_id: a.osm_way_id,
                osm_tags: clone_tags(&a.osm_tags),
                points: copy_points(&a.points),
            },
        );
        k += 1;
    }

    let mut extra_shapes: Vec<ExtraShape> = Vec::new();
    let mut k: usize = 0;
    while k < raw.shapes.len()
        invariant
            k <= raw.shapes@.len(),
            forall|e: int|
                0 <= e < extra_shapes@.len() ==> (#[trigger] extra_shapes@[e]).id.0 == e,
        decreases raw.shapes@.len() - k,
    {
        let sh = &raw.shapes[k];
        extra_shapes.push(
            ExtraShape {
                id: ExtraShapeID(extra_shapes.len()),
                attributes: clone_tags(&sh.attributes),
                points: copy_points(&sh.points),
            },
        );
        k += 1;
    }

    let mut bounds = Bounds { min_x_mm: 0, min_y_mm: 0, max_x_mm: 0, max_y_mm: 0 };
    let mut k: usize = 0;
    while k < ints.len()
        invariant
            k <= ints@.len(),
        decreases ints@.len() - k,
    {
        let node = &ints[k];
        if k == 0 {
            bounds = Bounds {
                min_x_mm: node.x_mm,
                min_y_mm: node.y_mm,
                max_x_mm: node.x_mm,
                max_y_mm: node.y_mm,
            };
        } else {
            if node.x_mm < bounds.min_x_mm {
                bounds.min_x_mm = node.x_mm;
            }
            if node.y_mm < bounds.min_y_mm {
                bounds.min_y_mm = node.y_mm;
            }
            if node.x_mm > bounds.max_x_mm {
                bounds.max_x_mm = node.x_mm;
            }
            if node.y_mm > bounds.max_y_mm {
                bounds.max_y_mm = node.y_mm;
            }
        }
        k += 1;
    }

    proof {
        assert forall|j: int|
            0 <= j < raw.nodes@.len() && spec_is_int_node(
                *raw,
                (#[trigger] raw.nodes@[j]).osm_node_id,
            ) implies exists|k: int|
            0 <= k < ints@.len() && (#[trigger] ints@[k]).osm_node_id
                == raw.nodes@[j].osm_node_id by {
            let k0 = choose|k: int|
                0 <= k < seeds@.len() && (#[trigger] seeds@[k]).osm_node_id
                    == raw.nodes@[j].osm_node_id;
            assert(ints@[k0].osm_node_id == seeds@[k0].osm_node_id);
        }
    }
    let m = RoadMap {
        roads,
        lanes,
        intersections: ints,
        turns,
        buildings,
        parcels,
        areas,
        extra_shapes,
        bus_stops,
        bus_routes,
        stop_signs,
        traffic_signals,
        bounds,
    };
    proof {
        assert(m.wf_dense_ids());
        assert(m.wf_roads());
        assert(m.wf_lanes());
        assert(m.wf_intersections());
        assert(m.wf_turns());
        assert forall|s: int|
            0 <= s < m.stop_signs@.len() implies m.spec_stop_sign_consistent(
            #[trigger] m.stop_signs@[s],
        ) by {
            assert(spec_ss_ok(m.stop_signs@[s], m.intersections@, m.turns@));
        }
        assert(m.wf_stop_signs());
        assert forall|g: int|
            0 <= g < m.traffic_signals@.len() implies m.spec_signal_consistent(
            #[trigger] m.traffic_signals@[g],
        ) by {
            assert(spec_ts_ok(m.traffic_signals@[g], m.intersections@, m.turns@));
        }
        assert(m.wf_traffic_signals());
        assert(m.wf_bus());
        assert(m.wf_buildings());
    }
    Ok(m)
}

/// Find the built stop that came from this GTFS id.
fn find_built_stop(stops: &Vec<BusStop>, sid: u64) -> (r: Option<usize>)
    ensures
        match r {
            Some(j) => j < stops@.len() && stops@[j as int].gtfs_stop_id == sid,
            None => forall|j: int|
                0 <= j < stops@.len() ==> (#[trigger] stops@[j]).gtfs_stop_id != sid,
        },
{
    let mut j: usize = 0;
    while j < stops.len()
        invariant
            j <= stops@.len(),
            forall|k: int| 0 <= k < j ==> (#[trigger] stops@[k]).gtfs_stop_id != sid,
        decreases stops@.len() - j,
    {
        if stops[j].gtfs_stop_id == sid {
            return Some(j);
        }
        j += 1;
    }
    None
}

/// The average of a shape's vertices, clamped into the coordinate range.
fn centroid(pts: &Vec<(u64, u64)>) -> (c: (u64, u64))
    requires
        1 <= pts@.len() <= 10000,
        spec_points_ok(pts@),
    ensures
        spec_coord_ok(c.0, c.1),
{
    let mut sx: u64 = 0;
    let mut sy: u64 = 0;
    let mut k: usize = 0;
    while k < pts.len()
        invariant
            pts@.len() <= 10000,
            spec_points_ok(pts@),
            k <= pts@.len(),
            sx <= (k as int) * 10000000,
            sy <= (k as int) * 10000000,
        decreases pts@.len() - k,
    {
        sx = sx + pts[k].0;
        sy = sy + pts[k].1;
        k += 1;
    }
    let n = pts.len() as u64;
    let cx = sx / n;
    let cy = sy / n;
    let cx = if cx > crate::geometry::COORD_LIMIT_MM {
        crate::geometry::COORD_LIMIT_MM
    } else {
        cx
    };
    let cy = if cy > crate::geometry::COORD_LIMIT_MM {
        crate::geometry::COORD_LIMIT_MM
    } else {
        cy
    };
    (cx, cy)
}

} // verus!
