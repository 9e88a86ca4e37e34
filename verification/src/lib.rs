//! A road-network model: typed entities (roads, lanes, intersections, turns,
//! buildings, parcels, areas, bus stops and routes), a converter that builds a
//! consistent `RoadMap` from raw geographic input, per-intersection control
//! policies, an edit overlay, a spatial index, a pathfinder over the lane
//! graph, and small text widgets (a menu, a log viewer, a debug tooltip)
//! that the display shell renders.
//!
//! All distances are integer millimetres, so that every computation is exact
//! and two runs over the same input produce identical results.

use vstd::prelude::*;

mod area;
mod building;
mod bus_stop;
mod debug_objects;
mod edits;
mod error;
mod extra_shape;
mod find_closest;
mod geometry;
mod intersection;
mod lane;
mod logs;
mod make;
mod map;
mod menu;
mod parcel;
mod pathfind;
mod raw_data;
mod road;
mod stop_signs;
mod tags;
mod text;
mod traffic_signals;
mod turn;

pub use crate::area::{Area, AreaID, AreaType};
pub use crate::building::{Building, BuildingID, FrontPath};
pub use crate::bus_stop::{BusRoute, BusRouteID, BusStop, BusStopID};
pub use crate::debug_objects::{tooltip_lines, DebugObjectsState, ID};
pub use crate::edits::MapEdits;
pub use crate::error::MapError;
pub use crate::extra_shape::{ExtraShape, ExtraShapeID};
pub use crate::find_closest::{ClosestEntry, FindClosest};
pub use crate::geometry::{dist2, isqrt, polyline_len, COORD_LIMIT_MM};
pub use crate::intersection::{Intersection, IntersectionID, IntersectionType};
pub use crate::lane::{Lane, LaneID, LaneType, PARKING_SPOT_LENGTH_MM};
pub use crate::logs::{format_log_line, DisplayLogs, LogScroller};
pub use crate::make::{
    convert, get_lane_types, lemma_oneway_empty_backward, spec_back_lanes, spec_fwd_lanes,
    spec_road_rejected,
};
pub use crate::map::{
    lanes_before, lemma_bus_stop_on_lane, lemma_intersection_roads_exact,
    lemma_lane_lookup_consistent, lemma_no_laneless_road, lemma_signal_covers_exactly,
    lemma_stop_sign_covers_exactly, lemma_turn_endpoints, Bounds, RoadMap,
};
pub use crate::menu::{InputResult, KeyPress, Menu};
pub use crate::parcel::{Parcel, ParcelID};
pub use crate::pathfind::{usable, Mode, Path, PathRequest, PathStep, Position};
pub use crate::raw_data::{
    check_raw, find_node, find_stop, RawAttrShape, RawBusRoute, RawBusStop, RawMap, RawNode,
    RawParcel, RawShape, RawWay,
};
pub use crate::road::{Road, RoadID};
pub use crate::stop_signs::ControlStopSign;
pub use crate::tags::{tag_is, tag_value};
pub use crate::text::{u64_to_text, Text, TextLine};
pub use crate::traffic_signals::{ControlTrafficSignal, Cycle};
pub use crate::turn::{Turn, TurnID, TurnPriority, TurnType};

verus! {

/// Width of one lane, in millimetres (2.5 m).
pub const LANE_THICKNESS_MM: u64 = 2500;

} // verus!
