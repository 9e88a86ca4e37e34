use crate::lane::{LaneID, LaneType};
use crate::map::RoadMap;
use crate::turn::TurnID;
use vstd::prelude::*;

verus! {

/// Who is travelling.
#[derive(Clone, Copy, Debug, PartialEq, Eq, Structural, Hash)]
pub enum Mode {
    Walk,
    Drive,
    Bike,
}

/// A point on the network: a lane and a distance along it.
#[derive(Clone, Copy, Debug, PartialEq, Eq, Structural, Hash)]
pub struct Position {
    pub lane: LaneID,
    pub dist_along_mm: u64,
}

#[derive(Clone, Copy, Debug, PartialEq, Eq, Structural, Hash)]
pub struct PathRequest {
    pub start: Position,
    pub end: Position,
    pub mode: Mode,
}

/// One step of a path: travel a lane, or cross an intersection by a turn.
#[derive(Clone, Copy, Debug, PartialEq, Eq, Structural, Hash)]
pub enum PathStep {
    Lane(LaneID),
    Turn(TurnID),
}

/// An alternating lane/turn sequence from a start lane to an end lane.
#[derive(Clone, Debug, PartialEq, Eq)]
pub struct Path {
    pub steps: Vec<PathStep>,
}

/// Whether this mode may travel on this lane type at all.
pub open spec fn spec_usable(mode: Mode, lt: LaneType) -> bool {
    match mode {
        Mode::Walk => lt is Sidewalk,
        Mode::Drive => lt is Driving || lt is Bus,
        Mode::Bike => lt is Biking || lt is Driving,
    }
}

pub fn usable(mode: Mode, lt: LaneType) -> (r: bool)
    ensures
        r == spec_usable(mode, lt),
{
    match mode {
        Mode::Walk => matches!(lt, LaneType::Sidewalk),
        Mode::Drive => matches!(lt, LaneType::Driving | LaneType::Bus),
        Mode::Bike => matches!(lt, LaneType::Biking | LaneType::Driving),
    }
}

/// A well-formed path of this map under this mode: it alternates lanes and
/// turns, starts at `s`, ends at `e`, travels only lanes the mode may use,
/// and crosses only turns of the map that join the neighbouring lanes.
pub open spec fn spec_path_ok(
    m: RoadMap,
    mode: Mode,
    steps: Seq<PathStep>,
    s: LaneID,
    e: LaneID,
) -> bool {
    &&& steps.len() >= 1
    &&& steps.len() % 2 == 1
    &&& steps[0] == PathStep::Lane(s)
    &&& steps[steps.len() - 1] == PathStep::Lane(e)
    &&& forall|k: int|
        0 <= k < steps.len() && k % 2 == 0 ==> ((#[trigger] steps[k]) matches PathStep::Lane(l)
            && l.0 < m.lanes@.len() && spec_usable(mode, m.lanes@[l.0 as int].lane_type))
    &&& forall|k: int|
        0 <= k < steps.len() && k % 2 == 1 ==> ((#[trigger] steps[k]) matches PathStep::Turn(t)
            && m.spec_has_turn(t) && steps[k - 1] == PathStep::Lane(t.src) && steps[k + 1]
            == PathStep::Lane(t.dst))
}

impl RoadMap {
    /// Find a route for the request over the lane-and-turn graph. Edge
    /// weight is the turn length plus the destination lane's length, and a
    /// bike pays half on a dedicated bike lane; relaxations run in a fixed
    /// order over sorted turn ids, so the result is a function of the map
    /// and the request alone. Returns a path exactly in the shape
    /// `spec_path_ok` demands; when either endpoint is unusable for the
    /// mode there is no path at all.
    #[verifier::rlimit(100)]
    pub fn pathfind(&self, req: &PathRequest) -> (r: Option<Path>)
        requires
            self.wf(),
            req.start.lane.0 < self.lanes@.len(),
            req.end.lane.0 < self.lanes@.len(),
        ensures
            r matches Some(p) ==> spec_path_ok(
                *self,
                req.mode,
                p.steps@,
                req.start.lane,
                req.end.lane,
            ),
            !spec_usable(req.mode, self.lanes@[req.start.lane.0 as int].lane_type) || !spec_usable(
                req.mode,
                self.lanes@[req.end.lane.0 as int].lane_type,
            ) ==> r is None,
            spec_usable(req.mode, self.lanes@[req.start.lane.0 as int].lane_type)
                && req.start.lane == req.end.lane ==> r is Some,
    {
        let s = req.start.lane.0;
        let e = req.end.lane.0;
        if !usable(req.mode, self.lanes[s].lane_type) || !usable(
            req.mode,
            self.lanes[e].lane_type,
        ) {
            return None;
        }
        let inf: u64 = 0xffff_ffff_ffff_ffff;
        let mut dist: Vec<u64> = Vec::new();
        let mut paths: Vec<Vec<PathStep>> = Vec::new();
        let mut v: usize = 0;
        while v < self.lanes.len()
            invariant
                inf == 0xffff_ffff_ffff_ffff,
                v <= self.lanes@.len(),
                dist@.len() == v,
                paths@.len() == v,
                forall|x: int| 0 <= x < v ==> (#[trigger] dist@[x]) == 0xffff_ffff_ffff_ffff,
                forall|x: int| 0 <= x < v ==> (#[trigger] paths@[x])@.len() == 0,
            decreases self.lanes@.len() - v,
        {
            dist.push(inf);
            paths.push(Vec::new());
            v += 1;
        }
        let mut start_path: Vec<PathStep> = Vec::new();
        start_path.push(PathStep::Lane(req.start.lane));
        dist.set(s, 0);
        paths.set(s, start_path);
        proof {
            assert(spec_path_ok(*self, req.mode, paths@[s as int]@, req.start.lane, req.start.lane));
        }
        let mut round: usize = 0;
        while round < self.lanes.len()
            invariant
                self.wf(),
                req.start.lane.0 < self.lanes@.len(),
                spec_usable(req.mode, self.lanes@[req.start.lane.0 as int].lane_type),
                dist@.len() == self.lanes@.len(),
                paths@.len() == self.lanes@.len(),
                round <= self.lanes@.len(),
                forall|x: int|
                    0 <= x < self.lanes@.len() && (#[trigger] dist@[x]) != 0xffff_ffff_ffff_ffff
                        ==> spec_path_ok(
                        *self,
                        req.mode,
                        paths@[x]@,
                        req.start.lane,
                        LaneID(x as usize),
                    ),
                dist@[req.start.lane.0 as int] != 0xffff_ffff_ffff_ffff,
            decreases self.lanes@.len() - round,
        {
            self.relax_all(req, &mut dist, &mut paths);
            round += 1;
        }
        if dist[e] != inf {
            let p = clone_steps(&paths[e]);
            Some(Path { steps: p })
        } else {
            if s == e {
                proof {
                    assert(dist@[s as int] != 0xffff_ffff_ffff_ffff);
                }
            }
            None
        }
    }

    /// One full sweep of relaxations over the sorted turn list.
    #[verifier::rlimit(100)]
    fn relax_all(&self, req: &PathRequest, dist: &mut Vec<u64>, paths: &mut Vec<Vec<PathStep>>)
        requires
            self.wf(),
            req.start.lane.0 < self.lanes@.len(),
            spec_usable(req.mode, self.lanes@[req.start.lane.0 as int].lane_type),
            old(dist)@.len() == self.lanes@.len(),
            old(paths)@.len() == self.lanes@.len(),
            forall|x: int|
                0 <= x < self.lanes@.len() && (#[trigger] old(dist)@[x]) != 0xffff_ffff_ffff_ffff
                    ==> spec_path_ok(
                    *self,
                    req.mode,
                    old(paths)@[x]@,
                    req.start.lane,
                    LaneID(x as usize),
                ),
            old(dist)@[req.start.lane.0 as int] != 0xffff_ffff_ffff_ffff,
        ensures
            final(dist)@.len() == self.lanes@.len(),
            final(paths)@.len() == self.lanes@.len(),
            forall|x: int|
                0 <= x < self.lanes@.len() && (#[trigger] final(dist)@[x])
                    != 0xffff_ffff_ffff_ffff ==> spec_path_ok(
                    *self,
                    req.mode,
                    final(paths)@[x]@,
                    req.start.lane,
                    LaneID(x as usize),
                ),
            final(dist)@[req.start.lane.0 as int] != 0xffff_ffff_ffff_ffff,
    {
        let inf: u64 = 0xffff_ffff_ffff_ffff;
        let mut j: usize = 0;
        while j < self.turns.len()
            invariant
                inf == 0xffff_ffff_ffff_ffff,
                self.wf(),
                req.start.lane.0 < self.lanes@.len(),
                spec_usable(req.mode, self.lanes@[req.start.lane.0 as int].lane_type),
                dist@.len() == self.lanes@.len(),
                paths@.len() == self.lanes@.len(),
                j <= self.turns@.len(),
                forall|x: int|
                    0 <= x < self.lanes@.len() && (#[trigger] dist@[x]) != 0xffff_ffff_ffff_ffff
                        ==> spec_path_ok(
                        *self,
                        req.mode,
                        paths@[x]@,
                        req.start.lane,
                        LaneID(x as usize),
                    ),
                dist@[req.start.lane.0 as int] != 0xffff_ffff_ffff_ffff,
            decreases self.turns@.len() - j,
        {
            let t = self.turns[j];
            let u = t.id.src.0;
            let w = t.id.dst.0;
            proof {
                assert(self.spec_has_turn(t.id));
            }
            if dist[u] != inf && usable(req.mode, self.lanes[u].lane_type) && usable(
                req.mode,
                self.lanes[w].lane_type,
            ) {
                let lane_len = self.lanes[w].length_mm;
                let factor: u64 = if matches!(req.mode, Mode::Bike) && matches!(
                    self.lanes[w].lane_type,
                    LaneType::Biking,
                ) {
                    1
                } else {
                    2
                };
                if dist[u] < 1000000000000000 && lane_len < 1000000000000 && t.length_mm
                    < 1000000000000 {
                    let cost: u64 = dist[u] + factor * (t.length_mm + lane_len);
                    if cost < dist[w] {
                        let mut np = clone_steps(&paths[u]);
                        let ghost old_np = np@;
                        np.push(PathStep::Turn(t.id));
                        np.push(PathStep::Lane(t.id.dst));
                        proof {
                            lemma_path_extend(*self, req.mode, old_np, req.start.lane, t.id, np@);
                        }
                        dist.set(w, cost);
                        paths.set(w, np);
                    }
                }
            }
            j += 1;
        }
    }
}

/// Copy a step list.
fn clone_steps(steps: &Vec<PathStep>) -> (r: Vec<PathStep>)
    ensures
        r@ == steps@,
{
    let mut r: Vec<PathStep> = Vec::new();
    let mut i: usize = 0;
    while i < steps.len()
        invariant
            i <= steps@.len(),
            r@ =~= steps@.take(i as int),
        decreases steps@.len() - i,
    {
        r.push(steps[i]);
        proof {
            assert(r@ =~= steps@.take(i + 1));
        }
        i += 1;
    }
    proof {
        assert(r@ =~= steps@);
    }
    r
}

/// Extending a well-formed path by a turn of the map and the lane that the
/// turn enters keeps it well-formed, provided the turn leaves the path's
/// last lane and the entered lane is usable.
proof fn lemma_path_extend(
    m: RoadMap,
    mode: Mode,
    steps: Seq<PathStep>,
    s: LaneID,
    t: TurnID,
    extended: Seq<PathStep>,
)
    requires
        spec_path_ok(m, mode, steps, s, t.src),
        m.spec_has_turn(t),
        t.dst.0 < m.lanes@.len(),
        spec_usable(mode, m.lanes@[t.dst.0 as int].lane_type),
        extended == steps.push(PathStep::Turn(t)).push(PathStep::Lane(t.dst)),
    ensures
        spec_path_ok(m, mode, extended, s, t.dst),
{
    let n = steps.len() as int;
    assert(extended.len() == n + 2);
    assert(extended[n] == PathStep::Turn(t));
    assert(extended[n + 1] == PathStep::Lane(t.dst));
    assert forall|k: int| 0 <= k < n implies extended[k] == steps[k] by {
        assert(steps.push(PathStep::Turn(t))[k] == steps[k]);
    }
    assert(extended[0] == PathStep::Lane(s));
    assert forall|k: int|
        0 <= k < extended.len() && k % 2 == 0 implies ((#[trigger] extended[k]) matches PathStep::Lane(l)
        && l.0 < m.lanes@.len() && spec_usable(mode, m.lanes@[l.0 as int].lane_type)) by {
        if k < n {
            assert(extended[k] == steps[k]);
        }
    }
    assert forall|k: int|
        0 <= k < extended.len() && k % 2 == 1 implies ((#[trigger] extended[k]) matches PathStep::Turn(
        t2,
    ) && m.spec_has_turn(t2) && extended[k - 1] == PathStep::Lane(t2.src) && extended[k + 1]
        == PathStep::Lane(t2.dst)) by {
        if k < n - 1 {
            assert(extended[k] == steps[k]);
            assert(extended[k - 1] == steps[k - 1]);
            assert(extended[k + 1] == steps[k + 1]);
        } else if k == n {
            assert(extended[n - 1] == steps[n - 1]);
            assert(steps[n - 1] == PathStep::Lane(t.src));
        }
    }
}

} // verus!
