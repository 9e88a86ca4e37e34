use vstd::prelude::*;

verus! {

/// All coordinates live in [0, COORD_LIMIT_MM] millimetres, so every squared
/// distance fits comfortably in a u64 and every computation is exact.
pub const COORD_LIMIT_MM: u64 = 10000000;

/// Whether a point is inside the coordinate range the model accepts.
pub open spec fn spec_coord_ok(x: u64, y: u64) -> bool {
    x <= COORD_LIMIT_MM && y <= COORD_LIMIT_MM
}

/// Squared Euclidean distance between two points. Exact: no rounding.
pub open spec fn spec_dist2(ax: u64, ay: u64, bx: u64, by: u64) -> int {
    let dx = if ax >= bx {
        ax - bx
    } else {
        bx - ax
    };
    let dy = if ay >= by {
        ay - by
    } else {
        by - ay
    };
    dx * dx + dy * dy
}

pub fn dist2(ax: u64, ay: u64, bx: u64, by: u64) -> (d: u64)
    requires
        spec_coord_ok(ax, ay),
        spec_coord_ok(bx, by),
    ensures
        d == spec_dist2(ax, ay, bx, by),
        d <= 200000000000000,
{
    let dx: u64 = if ax >= bx {
        ax - bx
    } else {
        bx - ax
    };
    let dy: u64 = if ay >= by {
        ay - by
    } else {
        by - ay
    };
    proof {
        assert(dx * dx <= 100000000000000 && dy * dy <= 100000000000000) by (nonlinear_arith)
            requires
                dx <= 10000000,
                dy <= 10000000,
        ;
    }
    dx * dx + dy * dy
}

/// The square root of n, rounded down: the largest r with r * r <= n.
pub open spec fn isqrt_spec(n: int) -> int
    decreases n,
{
    if n < 1 {
        0
    } else {
        let r = isqrt_spec(n - 1);
        if (r + 1) * (r + 1) <= n {
            r + 1
        } else {
            r
        }
    }
}

/// The defining property of the rounded-down square root.
pub proof fn lemma_isqrt_bounds(n: int)
    requires
        0 <= n,
    ensures
        0 <= isqrt_spec(n),
        isqrt_spec(n) * isqrt_spec(n) <= n,
        n < (isqrt_spec(n) + 1) * (isqrt_spec(n) + 1),
    decreases n,
{
    if n >= 1 {
        lemma_isqrt_bounds(n - 1);
        let r = isqrt_spec(n - 1);
        if (r + 1) * (r + 1) <= n {
            assert(n < (r + 2) * (r + 2)) by (nonlinear_arith)
                requires
                    0 <= r,
                    n - 1 < (r + 1) * (r + 1),
            ;
        }
    }
}

/// Any r with r^2 <= n < (r+1)^2 is the rounded-down square root.
pub proof fn lemma_isqrt_unique(n: int, r: int)
    requires
        0 <= r,
        r * r <= n,
        n < (r + 1) * (r + 1),
    ensures
        isqrt_spec(n) == r,
{
    lemma_isqrt_bounds(n);
    let w = isqrt_spec(n);
    if w < r {
        assert(r * r > n) by (nonlinear_arith)
            requires
                0 <= w,
                w < r,
                n < (w + 1) * (w + 1),
        ;
    }
    if r < w {
        assert(w * w > n) by (nonlinear_arith)
            requires
                0 <= r,
                r < w,
                n < (r + 1) * (r + 1),
        ;
    }
}

/// Integer square root, rounded down.
pub fn isqrt(n: u64) -> (r: u64)
    ensures
        r == isqrt_spec(n as int),
        r * r <= n,
{
    let mut lo: u64 = 0;
    let mut hi: u64 = 4294967296;
    proof {
        assert((4294967296int) * (4294967296int) > u64::MAX) by (nonlinear_arith);
    }
    while hi - lo > 1
        invariant
            lo < hi,
            hi <= 4294967296,
            lo * lo <= n,
            (n as int) < (hi as int) * (hi as int),
        decreases hi - lo,
    {
        let mid: u64 = lo + (hi - lo) / 2;
        proof {
            assert(mid * mid < 4294967296int * 4294967296int) by (nonlinear_arith)
                requires
                    mid < 4294967296,
            ;
            assert(4294967296int * 4294967296int == 18446744073709551616int) by (nonlinear_arith);
        }
        if mid <= 4294967295 && mid * mid <= n {
            lo = mid;
        } else {
            proof {
                if mid > 4294967295 {
                    assert((n as int) < (mid as int) * (mid as int)) by (nonlinear_arith)
                        requires
                            mid >= 4294967296,
                            n <= u64::MAX,
                    ;
                }
            }
            hi = mid;
        }
    }
    proof {
        lemma_isqrt_unique(n as int, lo as int);
    }
    lo
}

/// Length of the segment between two points: the rounded-down Euclidean
/// distance.
pub open spec fn spec_seg_len(ax: u64, ay: u64, bx: u64, by: u64) -> int {
    isqrt_spec(spec_dist2(ax, ay, bx, by))
}

/// Arc length of a polyline: the sum of its rounded segment lengths.
pub open spec fn spec_polyline_len(pts: Seq<(u64, u64)>, n: int) -> int
    decreases n,
{
    if n <= 1 {
        0
    } else {
        spec_polyline_len(pts, n - 1) + spec_seg_len(
            pts[n - 2].0,
            pts[n - 2].1,
            pts[n - 1].0,
            pts[n - 1].1,
        )
    }
}

/// Whether every vertex of a polyline is in range.
pub open spec fn spec_points_ok(pts: Seq<(u64, u64)>) -> bool {
    forall|i: int| 0 <= i < pts.len() ==> spec_coord_ok((#[trigger] pts[i]).0, pts[i].1)
}

/// A segment between in-range points is at most 2 * COORD_LIMIT_MM long;
/// segment lengths are never negative.
pub proof fn lemma_seg_len_bound(ax: u64, ay: u64, bx: u64, by: u64)
    requires
        spec_coord_ok(ax, ay),
        spec_coord_ok(bx, by),
    ensures
        0 <= spec_seg_len(ax, ay, bx, by) <= 2 * COORD_LIMIT_MM,
{
    let d2 = spec_dist2(ax, ay, bx, by);
    assert(0 <= d2 <= 2 * 10000000 * 10000000) by (nonlinear_arith)
        requires
            spec_coord_ok(ax, ay),
            spec_coord_ok(bx, by),
            d2 == spec_dist2(ax, ay, bx, by),
    ;
    lemma_isqrt_bounds(d2);
    let r = isqrt_spec(d2);
    if r > 2 * COORD_LIMIT_MM {
        assert(r * r > 2 * 10000000 * 10000000) by (nonlinear_arith)
            requires
                r > 2 * 10000000,
        ;
    }
}

/// Prefix lengths never decrease.
pub proof fn lemma_polyline_len_mono(pts: Seq<(u64, u64)>, a: int, b: int)
    requires
        spec_points_ok(pts),
        a <= b,
        b <= pts.len(),
    ensures
        spec_polyline_len(pts, a) <= spec_polyline_len(pts, b),
    decreases b - a,
{
    if a < b {
        lemma_polyline_len_mono(pts, a, b - 1);
        if b >= 2 {
            lemma_seg_len_bound(pts[b - 2].0, pts[b - 2].1, pts[b - 1].0, pts[b - 1].1);
        }
    }
}

/// Executable polyline length, with the running prefix lengths: `prefix[i]`
/// is the arc length from the start to vertex `i`, so the last prefix equals
/// the total and every prefix is at most the total.
pub fn polyline_len(pts: &Vec<(u64, u64)>) -> (r: (u64, Vec<u64>))
    requires
        spec_points_ok(pts@),
        pts@.len() >= 1,
        pts@.len() <= 100000,
    ensures
        r.0 == spec_polyline_len(pts@, pts@.len() as int),
        r.1@.len() == pts@.len(),
        forall|i: int| 0 <= i < pts@.len() ==> (#[trigger] r.1@[i]) == spec_polyline_len(pts@, i + 1),
        forall|i: int| 0 <= i < pts@.len() ==> (#[trigger] r.1@[i]) <= r.0,
{
    let mut total: u64 = 0;
    let mut prefix: Vec<u64> = Vec::new();
    prefix.push(0);
    let mut i: usize = 1;
    while i < pts.len()
        invariant
            spec_points_ok(pts@),
            1 <= i <= pts@.len(),
            pts@.len() <= 100000,
            total == spec_polyline_len(pts@, i as int),
            total <= 20000000 * ((i - 1) as int),
            prefix@.len() == i,
            forall|j: int|
                0 <= j < i ==> (#[trigger] prefix@[j]) == spec_polyline_len(pts@, j + 1),
        decreases pts@.len() - i,
    {
        let (px, py) = pts[i - 1];
        let (cx, cy) = pts[i];
        let d = isqrt(dist2(px, py, cx, cy));
        proof {
            lemma_seg_len_bound(px, py, cx, cy);
            assert(spec_polyline_len(pts@, i + 1 as int) == spec_polyline_len(pts@, i as int)
                + spec_seg_len(px, py, cx, cy));
        }
        total = total + d;
        prefix.push(total);
        i += 1;
    }
    proof {
        assert forall|j: int|
            0 <= j < pts@.len() implies #[trigger] prefix@[j] <= spec_polyline_len(
            pts@,
            pts@.len() as int,
        ) by {
            lemma_polyline_len_mono(pts@, j + 1, pts@.len() as int);
        }
    }
    (total, prefix)
}

} // verus!
