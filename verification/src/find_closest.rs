use crate::geometry::{dist2, isqrt, isqrt_spec, spec_coord_ok, spec_dist2, spec_points_ok};
use vstd::prelude::*;

verus! {

/// One indexed object: an external id and the polyline's vertices.
#[derive(Clone, Debug, PartialEq, Eq)]
pub struct ClosestEntry {
    pub id: u64,
    pub pts: Vec<(u64, u64)>,
}

/// The squared distance from a query point to the nearest of the first `n`
/// vertices of a polyline (infinite when there are none; kept as a huge
/// sentinel value well above any real squared distance).
pub open spec fn spec_min_d2(pts: Seq<(u64, u64)>, n: int, qx: u64, qy: u64) -> int
    decreases n,
{
    if n <= 0 {
        0x7fffffffffffffff
    } else {
        let prev = spec_min_d2(pts, n - 1, qx, qy);
        let cur = spec_dist2(pts[n - 1].0, pts[n - 1].1, qx, qy);
        if cur < prev {
            cur
        } else {
            prev
        }
    }
}

/// Every vertex among the first `n` is at least the running minimum away.
proof fn lemma_min_d2_le_all(pts: Seq<(u64, u64)>, n: int, qx: u64, qy: u64)
    requires
        0 <= n <= pts.len(),
    ensures
        forall|j: int|
            0 <= j < n ==> spec_dist2((#[trigger] pts[j]).0, pts[j].1, qx, qy) >= spec_min_d2(
                pts,
                n,
                qx,
                qy,
            ),
    decreases n,
{
    if n > 0 {
        lemma_min_d2_le_all(pts, n - 1, qx, qy);
    }
}

/// The nearest-object index: objects are added once, then queried. The
/// result of a query depends only on the set of entries, never on the
/// order they were added in: ties are broken toward the smallest id.
#[derive(Clone, Debug, PartialEq, Eq)]
pub struct FindClosest {
    pub entries: Vec<ClosestEntry>,
}

impl FindClosest {
    pub open spec fn wf(&self) -> bool {
        forall|i: int|
            0 <= i < self.entries@.len() ==> {
                let e = #[trigger] self.entries@[i];
                &&& e.pts@.len() >= 1
                &&& spec_points_ok(e.pts@)
            }
    }

    /// The squared distance from the query to entry `i`.
    pub open spec fn spec_entry_d2(&self, i: int, qx: u64, qy: u64) -> int {
        spec_min_d2(self.entries@[i].pts@, self.entries@[i].pts@.len() as int, qx, qy)
    }

    pub fn new() -> (f: FindClosest)
        ensures
            f.wf(),
            f.entries@.len() == 0,
    {
        FindClosest { entries: Vec::new() }
    }

    /// Register an object under an external id.
    pub fn add(&mut self, id: u64, pts: Vec<(u64, u64)>)
        requires
            old(self).wf(),
            pts@.len() >= 1,
            spec_points_ok(pts@),
        ensures
            final(self).wf(),
            final(self).entries@ == old(self).entries@.push(ClosestEntry { id, pts }),
    {
        self.entries.push(ClosestEntry { id, pts });
    }

    /// The nearest of the first `n` vertices, and the first vertex index
    /// attaining it.
    fn min_d2(pts: &Vec<(u64, u64)>, qx: u64, qy: u64) -> (r: (u64, usize))
        requires
            pts@.len() >= 1,
            spec_points_ok(pts@),
            spec_coord_ok(qx, qy),
        ensures
            r.0 == spec_min_d2(pts@, pts@.len() as int, qx, qy),
            r.1 < pts@.len(),
            spec_dist2(pts@[r.1 as int].0, pts@[r.1 as int].1, qx, qy) == r.0,
            forall|k: int|
                0 <= k < r.1 ==> spec_dist2((#[trigger] pts@[k]).0, pts@[k].1, qx, qy) > r.0,
    {
        let mut best: u64 = dist2(pts[0].0, pts[0].1, qx, qy);
        let mut best_k: usize = 0;
        let mut k: usize = 1;
        proof {
            assert(spec_min_d2(pts@, 0, qx, qy) == 0x7fffffffffffffff);
            assert(spec_min_d2(pts@, 1, qx, qy) == spec_dist2(pts@[0].0, pts@[0].1, qx, qy));
        }
        while k < pts.len()
            invariant
                pts@.len() >= 1,
                spec_points_ok(pts@),
                spec_coord_ok(qx, qy),
                1 <= k <= pts@.len(),
                best_k < k,
                best == spec_min_d2(pts@, k as int, qx, qy),
                best < 0x7fffffffffffffff,
                spec_dist2(pts@[best_k as int].0, pts@[best_k as int].1, qx, qy) == best,
                forall|j: int|
                    0 <= j < best_k ==> spec_dist2((#[trigger] pts@[j]).0, pts@[j].1, qx, qy)
                        > best,
            decreases pts@.len() - k,
        {
            let d = dist2(pts[k].0, pts[k].1, qx, qy);
            proof {
                assert(spec_min_d2(pts@, k + 1, qx, qy) == if spec_dist2(
                    pts@[k as int].0,
                    pts@[k as int].1,
                    qx,
                    qy,
                ) < spec_min_d2(pts@, k as int, qx, qy) {
                    spec_dist2(pts@[k as int].0, pts@[k as int].1, qx, qy)
                } else {
                    spec_min_d2(pts@, k as int, qx, qy)
                });
                if d < best {
                    lemma_min_d2_le_all(pts@, k as int, qx, qy);
                }
            }
            if d < best {
                best = d;
                best_k = k;
            }
            k += 1;
        }
        (best, best_k)
    }

    /// The id whose polyline holds the vertex nearest to the query, within
    /// `max_dist_mm`; ties go to the smallest id. Returns the id, the
    /// nearest vertex, and the rounded distance to it. An object farther
    /// than `max_dist_mm` from the query is never returned.
    pub fn closest_pt(&self, qx: u64, qy: u64, max_dist_mm: u64) -> (r: Option<
        (u64, (u64, u64), u64),
    >)
        requires
            self.wf(),
            spec_coord_ok(qx, qy),
            max_dist_mm <= 100000000,
        ensures
            r is None ==> forall|i: int|
                0 <= i < self.entries@.len() ==> self.spec_entry_d2(i, qx, qy) > max_dist_mm
                    * max_dist_mm,
            r matches Some((id, pt, d)) ==> {
                let bd = spec_dist2(pt.0, pt.1, qx, qy);
                &&& bd <= max_dist_mm * max_dist_mm
                &&& exists|i: int|
                    0 <= i < self.entries@.len() && (#[trigger] self.entries@[i]).id == id
                        && self.spec_entry_d2(i, qx, qy) == bd
                &&& forall|i: int|
                    0 <= i < self.entries@.len() ==> self.spec_entry_d2(i, qx, qy) > max_dist_mm
                        * max_dist_mm || self.spec_entry_d2(i, qx, qy) > bd || (self.spec_entry_d2(
                        i,
                        qx,
                        qy,
                    ) == bd && (#[trigger] self.entries@[i]).id >= id)
                &&& spec_coord_ok(pt.0, pt.1)
                &&& d as int == isqrt_spec(bd)
            },
    {
        let mut best: Option<(u64, (u64, u64), u64)> = None;
        let mut bd2: u64 = 0;
        proof {
            assert(max_dist_mm * max_dist_mm <= 10000000000000000) by (nonlinear_arith)
                requires
                    max_dist_mm <= 100000000,
            ;
        }
        let limit: u64 = max_dist_mm * max_dist_mm;
        let mut i: usize = 0;
        while i < self.entries.len()
            invariant
                self.wf(),
                spec_coord_ok(qx, qy),
                limit == max_dist_mm * max_dist_mm,
                i <= self.entries@.len(),
                best is None ==> forall|j: int|
                    0 <= j < i ==> self.spec_entry_d2(j, qx, qy) > limit,
                best matches Some((id, pt, d)) ==> {
                    &&& exists|j: int|
                        0 <= j < i && (#[trigger] self.entries@[j]).id == id && self.spec_entry_d2(
                            j,
                            qx,
                            qy,
                        ) == bd2
                    &&& bd2 <= limit
                    &&& forall|j: int|
                        0 <= j < i ==> self.spec_entry_d2(j, qx, qy) > limit
                            || self.spec_entry_d2(j, qx, qy) > bd2 || (self.spec_entry_d2(
                            j,
                            qx,
                            qy,
                        ) == bd2 && (#[trigger] self.entries@[j]).id >= id)
                    &&& spec_coord_ok(pt.0, pt.1)
                    &&& d as int == isqrt_spec(bd2 as int)
                    &&& spec_dist2(pt.0, pt.1, qx, qy) == bd2
                },
            decreases self.entries@.len() - i,
        {
            let e = &self.entries[i];
            let (d2v, kv) = Self::min_d2(&e.pts, qx, qy);
            if d2v <= limit {
                let better = match &best {
                    None => true,
                    Some((bid, _, _)) => d2v < bd2 || (d2v == bd2 && e.id < *bid),
                };
                if better {
                    let pt = e.pts[kv];
                    let dist = isqrt(d2v);
                    best = Some((e.id, pt, dist));
                    bd2 = d2v;
                }
            }
            i += 1;
        }
        best
    }
}

} // verus!
