use map_model::{
    IntersectionID, LaneID, LaneType, MapEdits, Mode, PathRequest, PathStep, Position, RawBusRoute,
    RawBusStop, RawMap, RawNode, RawWay, RoadMap,
};

fn tags(pairs: &[(&str, &str)]) -> Vec<(String, String)> {
    pairs.iter().map(|(k, v)| (k.to_string(), v.to_string())).collect()
}

fn node(id: u64, x: u64, y: u64) -> RawNode {
    RawNode { osm_node_id: id, x_mm: x, y_mm: y, elevation_mm: 1000 }
}

/// Two ways crossing at a shared node: a plus-shaped network.
fn crossroads() -> RawMap {
    RawMap {
        name: "crossroads".to_string(),
        nodes: vec![
            node(1, 0, 50000),
            node(2, 50000, 50000),
            node(3, 100000, 50000),
            node(4, 50000, 0),
            node(5, 50000, 100000),
        ],
        ways: vec![
            RawWay { osm_way_id: 10, osm_tags: tags(&[("highway", "residential")]), nodes: vec![1, 2, 3] },
            RawWay { osm_way_id: 20, osm_tags: tags(&[("highway", "residential")]), nodes: vec![4, 2, 5] },
        ],
        buildings: vec![],
        areas: vec![],
        parcels: vec![],
        shapes: vec![],
        bus_stops: vec![
            RawBusStop { gtfs_stop_id: 101, x_mm: 1000, y_mm: 50000 },
            RawBusStop { gtfs_stop_id: 102, x_mm: 99000, y_mm: 50000 },
        ],
        bus_routes: vec![RawBusRoute { name: "line one".to_string(), stops: vec![101, 102] }],
        traffic_signal_nodes: vec![],
    }
}

#[test]
fn convert_builds_roads_and_lanes() {
    let m = map_model::convert(&crossroads()).unwrap();
    // Each way splits at the shared node: four road segments.
    assert_eq!(m.roads.len(), 4);
    // Untagged road: one driving lane and a sidewalk per side.
    assert_eq!(m.lanes.len(), 16);
    assert_eq!(m.intersections.len(), 5);
    // Lane ids are dense and parents resolve (the store invariant).
    for (j, l) in m.lanes.iter().enumerate() {
        assert_eq!(l.id.0, j);
        let r = m.get_r(l.parent);
        assert!(r.children_forwards.contains(&l.id) || r.children_backwards.contains(&l.id));
    }
    // Intersection road lists hold exactly the incident roads.
    for i in &m.intersections {
        for rid in &i.roads {
            let r = m.get_r(*rid);
            assert!(r.src_i == i.id || r.dst_i == i.id);
        }
    }
}

#[test]
fn convert_twice_is_identical() {
    let raw = crossroads();
    let m1 = map_model::convert(&raw).unwrap();
    let m2 = map_model::convert(&raw).unwrap();
    assert_eq!(m1, m2);
}

#[test]
fn raw_to_map_twice() {
    let raw = crossroads();
    let m1 = RoadMap::new(&raw, &MapEdits::new("base")).unwrap();
    let m2 = RoadMap::new(&raw, &MapEdits::new("base")).unwrap();
    assert_eq!(m1, m2);
}

#[test]
fn oneway_road_has_empty_backward_list() {
    let mut raw = crossroads();
    raw.ways[0].osm_tags = tags(&[("highway", "residential"), ("oneway", "yes"), ("lanes", "1")]);
    let m = map_model::convert(&raw).unwrap();
    // Both segments of the one-way way have no backward lanes.
    let seg: Vec<_> = m.roads.iter().filter(|r| r.osm_way_id == 10).collect();
    assert_eq!(seg.len(), 2);
    for r in seg {
        assert!(r.children_backwards.is_empty());
        assert!(!r.children_forwards.is_empty());
    }
}

#[test]
fn laneless_road_is_rejected() {
    let mut raw = crossroads();
    // oneway, zero driving lanes, no sidewalks: no lane can be fabricated.
    raw.ways[0].osm_tags = tags(&[
        ("highway", "service"),
        ("oneway", "yes"),
        ("lanes", "0"),
        ("sidewalk", "none"),
    ]);
    let m = map_model::convert(&raw).unwrap();
    assert!(m.roads.iter().all(|r| r.osm_way_id != 10));
    // And no road of any constructed map is ever laneless.
    for r in &m.roads {
        assert!(r.children_forwards.len() + r.children_backwards.len() >= 1);
    }
}

#[test]
fn parking_spot_count_is_floor_of_length() {
    let mut raw = crossroads();
    raw.ways[0].osm_tags = tags(&[("highway", "residential"), ("parking:lane:both", "parallel")]);
    let m = map_model::convert(&raw).unwrap();
    let parking: Vec<_> = m.lanes.iter().filter(|l| l.lane_type == LaneType::Parking).collect();
    assert!(!parking.is_empty());
    for l in &parking {
        // 50 m segment: floor(50000 / 8000) = 6 spots.
        assert_eq!(l.length_mm, 50000);
        assert_eq!(l.number_parking_spots(), 6);
    }
}

#[test]
fn non_parking_lane_has_zero_spots() {
    let m = map_model::convert(&crossroads()).unwrap();
    for l in &m.lanes {
        if l.lane_type != LaneType::Parking {
            assert_eq!(l.number_parking_spots(), 0);
        }
    }
}

#[test]
fn controls_cover_every_intersection() {
    let m = map_model::convert(&crossroads()).unwrap();
    for i in &m.intersections {
        let ss = m.stop_signs.iter().find(|s| s.id == i.id);
        let ts = m.traffic_signals.iter().find(|s| s.id == i.id);
        assert!(ss.is_some() || ts.is_some());
        // The policy's turn set equals the intersection's turn set.
        let turns_here: Vec<_> = m.turns.iter().filter(|t| t.id.parent == i.id).collect();
        if let Some(ss) = ss {
            assert_eq!(ss.turns.len(), turns_here.len());
            for t in &turns_here {
                assert!(ss.turns.iter().any(|(tid, _)| *tid == t.id));
            }
        }
        if let Some(ts) = ts {
            assert!(!ts.cycles.is_empty());
            for cy in &ts.cycles {
                assert_eq!(cy.priorities.len(), turns_here.len());
            }
        }
    }
}

#[test]
fn pathfinder_driving() {
    let m = map_model::convert(&crossroads()).unwrap();
    // Forward driving lane of the western segment ends at the center...
    let a = m
        .lanes
        .iter()
        .find(|l| {
            l.lane_type == LaneType::Driving && m.get_r(l.parent).osm_way_id == 10
                && m.get_i(l.dst_i).osm_node_id == 2
                && m.get_i(l.src_i).osm_node_id == 1
        })
        .unwrap();
    // ...and the forward driving lane of the eastern segment leaves it.
    let b = m
        .lanes
        .iter()
        .find(|l| {
            l.lane_type == LaneType::Driving && m.get_r(l.parent).osm_way_id == 10
                && m.get_i(l.src_i).osm_node_id == 2
                && m.get_i(l.dst_i).osm_node_id == 3
        })
        .unwrap();
    let req = PathRequest {
        start: Position { lane: a.id, dist_along_mm: 0 },
        end: Position { lane: b.id, dist_along_mm: 0 },
        mode: Mode::Drive,
    };
    let p = m.pathfind(&req).expect("a driving path must exist");
    assert_eq!(p.steps.len(), 3);
    assert_eq!(p.steps[0], PathStep::Lane(a.id));
    assert_eq!(p.steps[2], PathStep::Lane(b.id));
    match p.steps[1] {
        PathStep::Turn(t) => {
            assert_eq!(t.src, a.id);
            assert_eq!(t.dst, b.id);
            let turn = m.get_t(t);
            assert_eq!(turn.turn_type, map_model::TurnType::Straight);
        },
        _ => panic!("middle step must be a turn"),
    }
}

#[test]
fn pathfinder_determinism() {
    let m = map_model::convert(&crossroads()).unwrap();
    let a = m.lanes.iter().find(|l| l.lane_type == LaneType::Sidewalk).unwrap();
    let b = m.lanes.iter().rev().find(|l| l.lane_type == LaneType::Sidewalk).unwrap();
    let req = PathRequest {
        start: Position { lane: a.id, dist_along_mm: 0 },
        end: Position { lane: b.id, dist_along_mm: 0 },
        mode: Mode::Walk,
    };
    assert_eq!(m.pathfind(&req), m.pathfind(&req));
}

#[test]
fn pathfinder_no_sidewalk() {
    let m = map_model::convert(&crossroads()).unwrap();
    let sidewalk = m.lanes.iter().find(|l| l.lane_type == LaneType::Sidewalk).unwrap();
    let driving = m.lanes.iter().find(|l| l.lane_type == LaneType::Driving).unwrap();
    let req = PathRequest {
        start: Position { lane: sidewalk.id, dist_along_mm: 0 },
        end: Position { lane: driving.id, dist_along_mm: 0 },
        mode: Mode::Walk,
    };
    assert!(m.pathfind(&req).is_none());
}

#[test]
fn empty_edits_yield_equal_map() {
    let m = map_model::convert(&crossroads()).unwrap();
    let again = m.clone().apply_edits(&MapEdits::new("noop"));
    assert_eq!(m, again);
}

#[test]
fn edit_lane_type() {
    let mut raw = crossroads();
    raw.ways[0].osm_tags = tags(&[("highway", "residential"), ("parking:lane:both", "parallel")]);
    let m = map_model::convert(&raw).unwrap();
    let parking = m.lanes.iter().find(|l| l.lane_type == LaneType::Parking).unwrap().id;
    let edits = MapEdits {
        edits_name: "repurpose".to_string(),
        lane_overrides: vec![(parking, LaneType::Driving)],
        intersection_overrides: vec![],
    };
    let m2 = m.apply_edits(&edits);
    let l = m2.get_l(parking);
    assert_eq!(l.lane_type, LaneType::Driving);
    assert_eq!(l.number_parking_spots(), 0);
    // The repurposed lane now takes part in driving turns.
    assert!(m2.turns.iter().any(|t| t.id.src == parking || t.id.dst == parking));
}

#[test]
fn edit_control_type() {
    let m = map_model::convert(&crossroads()).unwrap();
    // The center intersection has four arms, so it gets a stop sign.
    let center = m.intersections.iter().find(|i| i.osm_node_id == 2).unwrap();
    assert!(m.stop_signs.iter().any(|s| s.id == center.id));
    let edits = MapEdits {
        edits_name: "signalize".to_string(),
        lane_overrides: vec![],
        intersection_overrides: vec![(center.id, map_model::IntersectionType::TrafficSignal)],
    };
    let center_id = center.id;
    let m2 = m.apply_edits(&edits);
    assert!(m2.traffic_signals.iter().any(|s| s.id == center_id));
    assert!(!m2.stop_signs.iter().any(|s| s.id == center_id));
}

#[test]
fn bus_route_stitch() {
    let m = map_model::convert(&crossroads()).unwrap();
    assert_eq!(m.bus_routes.len(), 1);
    let route = &m.bus_routes[0];
    assert_eq!(route.name, "line one");
    assert_eq!(route.stops.len(), 2);
    let s0 = m.get_bs(route.stops[0]);
    let s1 = m.get_bs(route.stops[1]);
    assert_eq!(s0.gtfs_stop_id, 101);
    assert_eq!(s1.gtfs_stop_id, 102);
    // Each stop sits on a sidewalk, within the lane's length.
    for s in [s0, s1] {
        let l = m.get_l(s.sidewalk);
        assert_eq!(l.lane_type, LaneType::Sidewalk);
        assert!(s.dist_along_mm <= l.length_mm);
    }
}

#[test]
fn malformed_input_rejected() {
    let mut raw = crossroads();
    raw.nodes.swap(0, 1);
    match map_model::convert(&raw) {
        Err(map_model::MapError::InputMalformed(_)) => {},
        other => panic!("expected InputMalformed, got {:?}", other.map(|_| ())),
    }
}

#[test]
fn dangling_reference_rejected() {
    let mut raw = crossroads();
    raw.ways[0].nodes.push(999);
    match map_model::convert(&raw) {
        Err(map_model::MapError::Inconsistent(_)) => {},
        other => panic!("expected Inconsistent, got {:?}", other.map(|_| ())),
    }
}

#[test]
fn version_mismatch_kind_text() {
    let e = map_model::MapError::VersionMismatch(2, 1);
    assert_eq!(e.kind_text(), "version mismatch");
}

#[test]
fn tooltip_for_lane() {
    let m = map_model::convert(&crossroads()).unwrap();
    let t = map_model::tooltip_lines(map_model::ID::Lane(LaneID(0)), &m);
    // Title, way, parent, elevations, lengths, then one line per tag.
    assert_eq!(t.lines.len(), 5 + m.get_r(m.get_l(LaneID(0)).parent).osm_tags.len());
    assert!(t.lines[0].line.starts_with("lane 0 is "));
}

#[test]
fn tooltip_for_intersection() {
    let m = map_model::convert(&crossroads()).unwrap();
    let t = map_model::tooltip_lines(map_model::ID::Intersection(IntersectionID(0)), &m);
    assert_eq!(t.lines.len(), 1 + m.get_i(IntersectionID(0)).roads.len());
}

#[test]
fn find_closest_prefers_smallest_id_on_tie() {
    let mut f = map_model::FindClosest::new();
    f.add(7, vec![(1000, 1000)]);
    f.add(3, vec![(1000, 1000)]);
    let (id, pt, d) = f.closest_pt(1000, 2000, 5000).unwrap();
    assert_eq!(id, 3);
    assert_eq!(pt, (1000, 1000));
    assert_eq!(d, 1000);
    assert!(f.closest_pt(1000, 50000, 5000).is_none());
}

#[test]
fn isqrt_and_lengths() {
    assert_eq!(map_model::isqrt(0), 0);
    assert_eq!(map_model::isqrt(15), 3);
    assert_eq!(map_model::isqrt(16), 4);
    let (total, prefix) = map_model::polyline_len(&vec![(0, 0), (3000, 4000), (3000, 9000)]);
    assert_eq!(total, 10000);
    assert_eq!(prefix, vec![0, 5000, 10000]);
}

#[test]
fn lane_synthesis_defaults() {
    let (fwd, back) = map_model::get_lane_types(&tags(&[("highway", "residential")]));
    assert_eq!(fwd, vec![LaneType::Driving, LaneType::Sidewalk]);
    assert_eq!(back, vec![LaneType::Driving, LaneType::Sidewalk]);
    let (fwd, back) = map_model::get_lane_types(&tags(&[("oneway", "yes"), ("lanes", "2")]));
    assert_eq!(fwd, vec![LaneType::Driving, LaneType::Driving, LaneType::Sidewalk]);
    assert!(back.is_empty());
}
