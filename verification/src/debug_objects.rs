use crate::area::AreaID;
use crate::building::BuildingID;
use crate::bus_stop::BusStopID;
use crate::extra_shape::ExtraShapeID;
use crate::intersection::IntersectionID;
use crate::lane::LaneID;
use crate::map::RoadMap;
use crate::parcel::ParcelID;
use crate::tags::spec_tag_value;
use crate::text::{spec_u64_text, u64_to_text, Text};
use crate::turn::TurnID;
use vstd::prelude::*;

verus! {

/// Something on the map the cursor can rest on.
#[derive(Clone, Copy, Debug, PartialEq, Eq, Structural, Hash)]
pub enum ID {
    Lane(LaneID),
    Intersection(IntersectionID),
    Turn(TurnID),
    Building(BuildingID),
    ExtraShape(ExtraShapeID),
    Parcel(ParcelID),
    BusStop(BusStopID),
    Area(AreaID),
}

impl ID {
    /// Whether the id resolves in this map.
    pub open spec fn spec_resolves(&self, map: RoadMap) -> bool {
        match *self {
            ID::Lane(id) => id.0 < map.lanes@.len(),
            ID::Intersection(id) => id.0 < map.intersections@.len(),
            ID::Turn(id) => map.spec_has_turn(id),
            ID::Building(id) => id.0 < map.buildings@.len(),
            ID::ExtraShape(id) => id.0 < map.extra_shapes@.len(),
            ID::Parcel(id) => id.0 < map.parcels@.len(),
            ID::BusStop(id) => id.0 < map.bus_stops@.len(),
            ID::Area(id) => id.0 < map.areas@.len(),
        }
    }
}

/// The debug-tooltip plugin's state: whether the modifier key is held, and
/// what is under the cursor.
#[derive(Clone, Copy, Debug, PartialEq, Eq, Structural, Hash)]
pub struct DebugObjectsState {
    pub control_held: bool,
    pub selected: Option<ID>,
}

impl DebugObjectsState {
    pub fn new() -> (s: DebugObjectsState)
        ensures
            !s.control_held,
            s.selected is None,
    {
        DebugObjectsState { control_held: false, selected: None }
    }

    /// One round of ambient dispatch: track the current selection, and hold
    /// the modifier from press until release.
    pub fn ambient_event(
        &mut self,
        current_selection: Option<ID>,
        modifier_pressed: bool,
        modifier_released: bool,
    )
        ensures
            final(self).selected == current_selection,
            old(self).control_held ==> final(self).control_held == !modifier_released,
            !old(self).control_held ==> final(self).control_held == modifier_pressed,
    {
        self.selected = current_selection;
        if self.control_held {
            self.control_held = !modifier_released;
        } else {
            self.control_held = modifier_pressed;
        }
    }

    /// The tooltip is drawn only while the modifier is held over a
    /// selection that resolves.
    pub fn new_draw(&self, map: &RoadMap) -> (t: Option<Text>)
        requires
            map.wf(),
        ensures
            t is Some <==> (self.control_held && self.selected is Some
                && self.selected.unwrap().spec_resolves(*map)),
    {
        if self.control_held {
            if let Some(id) = self.selected {
                let ok = match id {
                    ID::Lane(l) => l.0 < map.lanes.len(),
                    ID::Intersection(i) => i.0 < map.intersections.len(),
                    ID::Turn(t) => has_turn(map, t),
                    ID::Building(b) => b.0 < map.buildings.len(),
                    ID::ExtraShape(e) => e.0 < map.extra_shapes.len(),
                    ID::Parcel(p) => p.0 < map.parcels.len(),
                    ID::BusStop(b) => b.0 < map.bus_stops.len(),
                    ID::Area(a) => a.0 < map.areas.len(),
                };
                if ok {
                    return Some(tooltip_lines(id, map));
                }
            }
        }
        None
    }
}

/// Whether a turn with this id exists in the store.
pub fn has_turn(map: &RoadMap, id: TurnID) -> (r: bool)
    ensures
        r == map.spec_has_turn(id),
{
    let mut j: usize = 0;
    while j < map.turns.len()
        invariant
            j <= map.turns@.len(),
            forall|k: int| 0 <= k < j ==> (#[trigger] map.turns@[k]).id != id,
        decreases map.turns@.len() - j,
    {
        if map.turns[j].id == id {
            return true;
        }
        j += 1;
    }
    false
}

/// "key = value", the line the tooltip prints for one tag.
pub open spec fn spec_tag_line(kv: (String, String)) -> Seq<char> {
    kv.0@ + " = "@ + kv.1@
}

fn tag_line(k: &String, v: &String) -> (r: String)
    ensures
        r@ == k@ + " = "@ + v@,
{
    let mut s = k.clone();
    s.append(" = ");
    s.append(v.as_str());
    proof {
        assert(s@ =~= k@ + " = "@ + v@);
    }
    s
}

/// The first tooltip line of a lane: its number and the parent road's name
/// (or "???" when the road is unnamed).
pub open spec fn spec_lane_title(map: RoadMap, id: LaneID) -> Seq<char> {
    let road = map.roads@[map.lanes@[id.0 as int].parent.0 as int];
    let name = match spec_tag_value(road.osm_tags@, "name"@) {
        Some(n) => n,
        None => "???"@,
    };
    "lane "@ + spec_u64_text(id.0 as int) + " is "@ + name
}

/// The facts the debug tooltip shows for an object: a title line, the
/// object's tags one per line, and per-kind extras. The layout is pinned by
/// the contract; a display shell outside this crate renders it.
pub fn tooltip_lines(obj: ID, map: &RoadMap) -> (t: Text)
    requires
        map.wf(),
        obj.spec_resolves(*map),
    ensures
        t.lines@.len() >= 1,
        obj matches ID::Lane(id) ==> {
            let road = map.roads@[map.lanes@[id.0 as int].parent.0 as int];
            &&& t.lines@[0].line@ == spec_lane_title(*map, id)
            &&& t.lines@.len() == 5 + road.osm_tags@.len() + (if map.lanes@[
                id.0 as int
            ].spec_is_parking() {
                1int
            } else {
                0int
            })
            &&& forall|k: int|
                0 <= k < road.osm_tags@.len() ==> (#[trigger] t.lines@[5 + k]).line@
                    == spec_tag_line(road.osm_tags@[k])
        },
        obj matches ID::Building(id) ==> {
            let b = map.buildings@[id.0 as int];
            &&& t.lines@.len() == 1 + b.osm_tags@.len()
            &&& forall|k: int|
                0 <= k < b.osm_tags@.len() ==> (#[trigger] t.lines@[1 + k]).line@ == spec_tag_line(
                    b.osm_tags@[k],
                )
        },
        obj matches ID::Area(id) ==> {
            let a = map.areas@[id.0 as int];
            &&& t.lines@.len() == 1 + a.osm_tags@.len()
            &&& forall|k: int|
                0 <= k < a.osm_tags@.len() ==> (#[trigger] t.lines@[1 + k]).line@ == spec_tag_line(
                    a.osm_tags@[k],
                )
        },
        obj matches ID::ExtraShape(id) ==> {
            let e = map.extra_shapes@[id.0 as int];
            &&& t.lines@.len() == if e.attributes@.len() == 0 {
                1int
            } else {
                e.attributes@.len() as int
            }
            &&& forall|k: int|
                0 <= k < e.attributes@.len() ==> (#[trigger] t.lines@[k]).line@ == spec_tag_line(
                    e.attributes@[k],
                )
        },
        obj matches ID::Intersection(id) ==> t.lines@.len() == 1 + map.intersections@[
            id.0 as int
        ].roads@.len(),
        obj matches ID::Turn(_) ==> t.lines@.len() == 2,
        obj matches ID::Parcel(_) ==> t.lines@.len() == 1,
        obj matches ID::BusStop(_) ==> t.lines@.len() >= 1,
{
    let mut txt = Text::new();
    match obj {
        ID::Lane(id) => {
            let l = map.get_l(id);
            let r = map.get_r(l.parent);
            let i1 = map.get_source_intersection(id);
            let i2 = map.get_destination_intersection(id);
            let mut title: String = "lane ".to_owned();
            title.append(u64_to_text(id.0 as u64).as_str());
            title.append(" is ");
            match crate::tags::tag_value(&r.osm_tags, "name") {
                Some(name) => title.append(name.as_str()),
                None => title.append("???"),
            }
            proof {
                assert(title@ =~= spec_lane_title(*map, id));
            }
            txt.add_line(title);
            let mut way: String = "from OSM way ".to_owned();
            way.append(u64_to_text(r.osm_way_id).as_str());
            txt.add_line(way);
            let mut parent: String = "parent road ".to_owned();
            parent.append(u64_to_text(r.id.0 as u64).as_str());
            parent.append(" points to intersection ");
            parent.append(u64_to_text(r.dst_i.0 as u64).as_str());
            txt.add_line(parent);
            let mut elev: String = "lane goes between elevations ".to_owned();
            elev.append(i64_to_text(i1.elevation_mm).as_str());
            elev.append(" and ");
            elev.append(i64_to_text(i2.elevation_mm).as_str());
            txt.add_line(elev);
            let mut lens: String = "lane is ".to_owned();
            lens.append(u64_to_text(l.length_mm).as_str());
            lens.append(" mm long, parent road is ");
            lens.append(u64_to_text(r.length_mm).as_str());
            lens.append(" mm long");
            txt.add_line(lens);
            let ghost base = txt.lines@.len();
            let mut k: usize = 0;
            while k < r.osm_tags.len()
                invariant
                    base == 5,
                    k <= r.osm_tags@.len(),
                    txt.lines@.len() == base + k,
                    txt.lines@[0].line@ == spec_lane_title(*map, id),
                    forall|j: int|
                        0 <= j < k ==> (#[trigger] txt.lines@[base + j]).line@ == spec_tag_line(
                            r.osm_tags@[j],
                        ),
                decreases r.osm_tags@.len() - k,
            {
                txt.add_line(tag_line(&r.osm_tags[k].0, &r.osm_tags[k].1));
                k += 1;
            }
            if l.is_parking() {
                let mut spots: String = "has ".to_owned();
                spots.append(u64_to_text(l.number_parking_spots()).as_str());
                spots.append(" parking spots");
                txt.add_line(spots);
            }
        },
        ID::Intersection(id) => {
            let node = map.get_i(id);
            let mut title: String = "intersection ".to_owned();
            title.append(u64_to_text(id.0 as u64).as_str());
            txt.add_line(title);
            let mut k: usize = 0;
            while k < node.roads.len()
                invariant
                    k <= node.roads@.len(),
                    txt.lines@.len() == 1 + k,
                decreases node.roads@.len() - k,
            {
                let mut line: String = "- road ".to_owned();
                line.append(u64_to_text(node.roads[k].0 as u64).as_str());
                txt.add_line(line);
                k += 1;
            }
        },
        ID::Turn(id) => {
            let t = map.get_t(id);
            let mut title: String = "turn from lane ".to_owned();
            title.append(u64_to_text(id.src.0 as u64).as_str());
            title.append(" to lane ");
            title.append(u64_to_text(id.dst.0 as u64).as_str());
            txt.add_line(title);
            txt.add_line(turn_type_text(t.turn_type).to_owned());
        },
        ID::Building(id) => {
            let b = map.get_b(id);
            let mut title: String = "building ".to_owned();
            title.append(u64_to_text(id.0 as u64).as_str());
            title.append(" (from OSM way ");
            title.append(u64_to_text(b.osm_way_id).as_str());
            title.append(")");
            txt.add_line(title);
            let mut k: usize = 0;
            while k < b.osm_tags.len()
                invariant
                    k <= b.osm_tags@.len(),
                    txt.lines@.len() == 1 + k,
                    forall|j: int|
                        0 <= j < k ==> (#[trigger] txt.lines@[1 + j]).line@ == spec_tag_line(
                            b.osm_tags@[j],
                        ),
                decreases b.osm_tags@.len() - k,
            {
                txt.add_line(tag_line(&b.osm_tags[k].0, &b.osm_tags[k].1));
                k += 1;
            }
        },
        ID::ExtraShape(id) => {
            let e = map.get_es(id);
            let mut k: usize = 0;
            while k < e.attributes.len()
                invariant
                    k <= e.attributes@.len(),
                    txt.lines@.len() == k,
                    forall|j: int|
                        0 <= j < k ==> (#[trigger] txt.lines@[j]).line@ == spec_tag_line(
                            e.attributes@[j],
                        ),
                decreases e.attributes@.len() - k,
            {
                txt.add_line(tag_line(&e.attributes[k].0, &e.attributes[k].1));
                k += 1;
            }
            if txt.lines.len() == 0 {
                txt.add_line("no attributes".to_owned());
            }
        },
        ID::Parcel(id) => {
            let mut title: String = "parcel ".to_owned();
            title.append(u64_to_text(id.0 as u64).as_str());
            txt.add_line(title);
        },
        ID::BusStop(id) => {
            let mut title: String = "bus stop ".to_owned();
            title.append(u64_to_text(id.0 as u64).as_str());
            txt.add_line(title);
            let routes = map.get_all_bus_routes();
            let mut k: usize = 0;
            while k < routes.len()
                invariant
                    k <= routes@.len(),
                    txt.lines@.len() >= 1,
                decreases routes@.len() - k,
            {
                if stops_contain(&routes[k].stops, id) {
                    let mut line: String = "- route ".to_owned();
                    line.append(routes[k].name.as_str());
                    txt.add_line(line);
                }
                k += 1;
            }
        },
        ID::Area(id) => {
            let a = map.get_a(id);
            let mut title: String = "area ".to_owned();
            title.append(u64_to_text(id.0 as u64).as_str());
            title.append(" (from OSM way ");
            title.append(u64_to_text(a.osm_way_id).as_str());
            title.append(")");
            txt.add_line(title);
            let mut k: usize = 0;
            while k < a.osm_tags.len()
                invariant
                    k <= a.osm_tags@.len(),
                    txt.lines@.len() == 1 + k,
                    forall|j: int|
                        0 <= j < k ==> (#[trigger] txt.lines@[1 + j]).line@ == spec_tag_line(
                            a.osm_tags@[j],
                        ),
                decreases a.osm_tags@.len() - k,
            {
                txt.add_line(tag_line(&a.osm_tags[k].0, &a.osm_tags[k].1));
                k += 1;
            }
        },
    }
    txt
}

/// Signed decimal text, for elevations.
pub fn i64_to_text(n: i64) -> (r: String)
    ensures
        n >= 0 ==> r@ == spec_u64_text(n as int),
        n < 0 ==> r@ == "-"@ + spec_u64_text(-(n as int)),
{
    if n >= 0 {
        u64_to_text(n as u64)
    } else {
        let mut s: String = "-".to_owned();
        let mag: u64 = if n == i64::MIN {
            9223372036854775808u64
        } else {
            (-n) as u64
        };
        s.append(u64_to_text(mag).as_str());
        proof {
            assert(s@ =~= "-"@ + spec_u64_text(-(n as int)));
        }
        s
    }
}

/// The name of a turn's kind.
pub fn turn_type_text(t: crate::turn::TurnType) -> &'static str {
    match t {
        crate::turn::TurnType::Straight => "straight",
        crate::turn::TurnType::Right => "right turn",
        crate::turn::TurnType::Left => "left turn",
        crate::turn::TurnType::Crosswalk => "crosswalk",
        crate::turn::TurnType::SharedSidewalkCorner => "shared sidewalk corner",
    }
}

/// Whether a route's stop list contains a stop.
pub fn stops_contain(stops: &Vec<BusStopID>, id: BusStopID) -> (r: bool)
    ensures
        r == stops@.contains(id),
{
    let mut k: usize = 0;
    while k < stops.len()
        invariant
            k <= stops@.len(),
            forall|j: int| 0 <= j < k ==> stops@[j] != id,
        decreases stops@.len() - k,
    {
        if stops[k] == id {
            return true;
        }
        k += 1;
    }
    false
}

} // verus!
