//! Timing-point lookup: which point governs a query time.
//!
//! The lookup works over the sequence of point times. The governing entry is
//! the last one among those of maximal time not exceeding the query; when
//! every time exceeds the query, the first entry of minimal time stands in
//! as the defined fallback. This matches scanning a stably time-sorted copy
//! of the list for the last point at or before the query.

use vstd::prelude::*;

verus! {

/// Index of the governing entry among the first `n`: the last one of
/// maximal time `<= t`, or `-1` when no time is `<= t`.
pub open spec fn gov_idx(ts: Seq<int>, t: int, n: int) -> int
    decreases n,
    when 0 <= n <= ts.len()
{
    if n <= 0 {
        -1
    } else {
        let prev = gov_idx(ts, t, n - 1);
        if ts[n - 1] <= t && (prev == -1 || ts[prev] <= ts[n - 1]) {
            n - 1
        } else {
            prev
        }
    }
}

/// Index of the first entry of minimal time among the first `n`.
pub open spec fn min_idx(ts: Seq<int>, n: int) -> int
    decreases n,
    when 0 <= n <= ts.len()
{
    if n <= 1 {
        0
    } else {
        let prev = min_idx(ts, n - 1);
        if ts[n - 1] < ts[prev] {
            n - 1
        } else {
            prev
        }
    }
}

/// Index of the point governing time `t`.
pub open spec fn spec_resolve_idx(ts: Seq<int>, t: int) -> int {
    let g = gov_idx(ts, t, ts.len() as int);
    if g >= 0 {
        g
    } else {
        min_idx(ts, ts.len() as int)
    }
}

pub proof fn lemma_gov_idx_props(ts: Seq<int>, t: int, n: int)
    requires
        0 <= n <= ts.len(),
    ensures
        -1 <= gov_idx(ts, t, n) < n,
        gov_idx(ts, t, n) == -1 ==> (forall|i: int| 0 <= i < n ==> #[trigger] ts[i] > t),
        gov_idx(ts, t, n) >= 0 ==> ts[gov_idx(ts, t, n)] <= t && (forall|i: int|
            0 <= i < n && #[trigger] ts[i] <= t ==> ts[i] <= ts[gov_idx(ts, t, n)]),
    decreases n,
{
    if n > 0 {
        lemma_gov_idx_props(ts, t, n - 1);
        let prev = gov_idx(ts, t, n - 1);
        if ts[n - 1] <= t && (prev == -1 || ts[prev] <= ts[n - 1]) {
            assert(gov_idx(ts, t, n) == n - 1);
            assert forall|i: int| 0 <= i < n && #[trigger] ts[i] <= t implies ts[i] <= ts[n - 1] by {
                if i < n - 1 {
                    if prev == -1 {
                        assert(ts[i] > t);
                        assert(false);
                    }
                    assert(ts[i] <= ts[prev]);
                }
            }
        } else {
            assert(gov_idx(ts, t, n) == prev);
        }
    }
}

pub proof fn lemma_min_idx_props(ts: Seq<int>, n: int)
    requires
        1 <= n <= ts.len(),
    ensures
        0 <= min_idx(ts, n) < n,
        forall|i: int| 0 <= i < n ==> ts[min_idx(ts, n)] <= #[trigger] ts[i],
    decreases n,
{
    if n > 1 {
        lemma_min_idx_props(ts, n - 1);
    }
}

/// Lookup is total: the governing index is always in range.
pub proof fn lemma_resolve_total(ts: Seq<int>, t: int)
    requires
        ts.len() > 0,
    ensures
        0 <= spec_resolve_idx(ts, t) < ts.len(),
{
    lemma_gov_idx_props(ts, t, ts.len() as int);
    lemma_min_idx_props(ts, ts.len() as int);
}

/// Lookup is idempotent: resolving at the governing point's own time gives
/// a point of the same time.
pub proof fn lemma_resolve_idempotent(ts: Seq<int>, t: int)
    requires
        ts.len() > 0,
    ensures
        ts[spec_resolve_idx(ts, ts[spec_resolve_idx(ts, t)])] == ts[spec_resolve_idx(ts, t)],
{
    let n = ts.len() as int;
    lemma_gov_idx_props(ts, t, n);
    lemma_min_idx_props(ts, n);
    lemma_resolve_total(ts, t);
    let r = spec_resolve_idx(ts, t);
    let u = ts[r];
    lemma_gov_idx_props(ts, u, n);
    let g2 = gov_idx(ts, u, n);
    assert(ts[r] <= u);
    if g2 == -1 {
        assert(ts[r] > u);
        assert(false);
    }
    assert(ts[g2] <= u);
    assert(ts[r] <= ts[g2]);
    assert(spec_resolve_idx(ts, u) == g2);
}

/// Find the index of the point governing time `t` among `times`.
pub fn resolve_index(times: &Vec<i64>, t: i64) -> (idx: usize)
    requires
        times@.len() > 0,
    ensures
        idx as int == spec_resolve_idx(times@.map_values(|x: i64| x as int), t as int),
        idx < times@.len(),
{
    let ghost ts = times@.map_values(|x: i64| x as int);
    let n: usize = times.len();
    let mut gov: Option<usize> = None;
    let mut low: usize = 0;
    let mut i: usize = 0;
    while i < n
        invariant
            0 <= i <= n == times@.len(),
            ts == times@.map_values(|x: i64| x as int),
            ts.len() == n,
            gov is None <==> gov_idx(ts, t as int, i as int) == -1,
            gov matches Some(g) ==> g as int == gov_idx(ts, t as int, i as int) && g < i,
            i == 0 ==> low == 0,
            i > 0 ==> low as int == min_idx(ts, i as int) && low < i,
        decreases n - i,
    {
        proof {
            assert(ts[i as int] == times@[i as int] as int);
        }
        if times[i] <= t {
            let take: bool = match gov {
                None => true,
                Some(g) => times[g] <= times[i],
            };
            if take {
                gov = Some(i);
            }
        }
        if i > 0 {
            if times[i] < times[low] {
                low = i;
            }
        }
        i = i + 1;
    }
    match gov {
        Some(g) => g,
        None => {
            proof {
                lemma_min_idx_props(ts, n as int);
            }
            low
        },
    }
}

} // verus!
