use crate::intersection::IntersectionID;
use crate::lane::LaneID;
use vstd::prelude::*;

verus! {

/// Dense index of a road within a `Map`.
#[derive(Clone, Copy, Debug, PartialEq, Eq, Structural, PartialOrd, Ord, Hash)]
pub struct RoadID(pub usize);

/// A road segment between two intersections, owning its lanes.
#[derive(Clone, Debug, PartialEq, Eq)]
pub struct Road {
    pub id: RoadID,
    /// The OSM way this segment came from.
    pub osm_way_id: u64,
    /// OSM tags, sorted by key so iteration order is reproducible.
    pub osm_tags: Vec<(String, String)>,
    /// Lanes running src_i -> dst_i, ordered outside-to-inside.
    pub children_forwards: Vec<LaneID>,
    /// Lanes running dst_i -> src_i, ordered outside-to-inside.
    pub children_backwards: Vec<LaneID>,
    /// The center polyline's vertices, in millimetres.
    pub center_pts: Vec<(u64, u64)>,
    /// Arc length of the center polyline, in millimetres.
    pub length_mm: u64,
    pub src_i: IntersectionID,
    pub dst_i: IntersectionID,
}

impl Road {
    /// All lanes of the road: forward lanes first, then backward lanes.
    pub open spec fn spec_all_lanes(self) -> Seq<LaneID> {
        self.children_forwards@ + self.children_backwards@
    }

    pub fn all_lanes(&self) -> (r: Vec<LaneID>)
        ensures
            r@ == self.spec_all_lanes(),
    {
        let mut r: Vec<LaneID> = Vec::new();
        let mut i: usize = 0;
        while i < self.children_forwards.len()
            invariant
                i <= self.children_forwards.len(),
                r@ == self.children_forwards@.take(i as int),
            decreases self.children_forwards.len() - i,
        {
            r.push(self.children_forwards[i]);
            proof {
                assert(r@ =~= self.children_forwards@.take(i + 1 as int));
            }
            i += 1;
        }
        proof {
            assert(r@ =~= self.children_forwards@);
        }
        let mut j: usize = 0;
        while j < self.children_backwards.len()
            invariant
                j <= self.children_backwards.len(),
                r@ == self.children_forwards@ + self.children_backwards@.take(j as int),
            decreases self.children_backwards.len() - j,
        {
            r.push(self.children_backwards[j]);
            proof {
                assert(r@ =~= self.children_forwards@ + self.children_backwards@.take(j + 1 as int));
            }
            j += 1;
        }
        proof {
            assert(r@ =~= self.spec_all_lanes());
        }
        r
    }

    /// Whether a lane id sits in either of the road's two lists.
    pub open spec fn spec_contains_lane(self, l: LaneID) -> bool {
        self.children_forwards@.contains(l) || self.children_backwards@.contains(l)
    }
}

} // verus!
