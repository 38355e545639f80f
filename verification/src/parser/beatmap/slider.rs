//! Slider path assembly: flattening, resampling to the declared length, and
//! position-at-distance queries.

use vstd::prelude::*;

use crate::fx::{
    fx_abs, fx_add, fx_div, fx_mul, fx_sub, spec_fx_abs, spec_fx_add, spec_fx_div,
    spec_fx_hypot, spec_fx_mul, spec_fx_sub,
};
use crate::parser::beatmap::curves::PRECISION_LENIENCE;
use crate::parser::beatmap::objects::{CurveType, SliderBody};
use crate::parser::beatmap::BeatmapFile;
use crate::util::Vector2;

verus! {

/// The fixed-point distance from `a` to `b`, measured as the length of the
/// displacement `b - a`.
pub open spec fn spec_dist(a: Vector2, b: Vector2) -> int {
    spec_fx_hypot(spec_fx_sub(b.x as int, a.x as int), spec_fx_sub(b.y as int, a.y as int))
}

/// A point sequence with consecutive duplicates collapsed.
pub open spec fn spec_dedup(s: Seq<Vector2>) -> Seq<Vector2>
    decreases s.len(),
{
    if s.len() == 0 {
        Seq::<Vector2>::empty()
    } else {
        let p = spec_dedup(s.drop_last());
        if p.len() == 0 || p[p.len() - 1] != s[s.len() - 1] {
            p.push(s[s.len() - 1])
        } else {
            p
        }
    }
}

/// Append a point, collapsing a consecutive duplicate.
fn dedup_push(body: &mut Vec<Vector2>, p: Vector2)
    ensures
        old(body)@.len() == 0 || old(body)@[old(body)@.len() - 1] != p ==> final(body)@ == old(
            body,
        )@.push(p),
        !(old(body)@.len() == 0 || old(body)@[old(body)@.len() - 1] != p) ==> final(body)@ == old(
            body,
        )@,
{
    let n: usize = body.len();
    if n == 0 {
        body.push(p);
        return ;
    }
    let last: Vector2 = body[n - 1];
    if last.x != p.x || last.y != p.y {
        body.push(p);
    }
}

/// The cumulative fixed-point length of a polyline, accumulated with
/// saturating additions, as the walk in `resample_body` measures it.
pub open spec fn spec_acc_len(s: Seq<Vector2>) -> int
    decreases s.len(),
{
    if s.len() <= 1 {
        0
    } else {
        spec_fx_add(spec_acc_len(s.drop_last()), spec_dist(s[s.len() - 2], s[s.len() - 1]))
    }
}

proof fn lemma_acc_len_take(s: Seq<Vector2>, i: int)
    requires
        1 <= i < s.len(),
    ensures
        spec_acc_len(s.take(i + 1)) == spec_fx_add(spec_acc_len(s.take(i)), spec_dist(s[i - 1], s[i])),
{
    let t = s.take(i + 1);
    assert(t.drop_last() =~= s.take(i));
    assert(t[t.len() - 2] == s[i - 1]);
    assert(t[t.len() - 1] == s[i]);
}

/// The segment index at which the resampling walk clips: the first `j >= i`
/// whose next vertex would overshoot the declared length, or the final index
/// when none would.
pub open spec fn spec_clip_idx(path: Seq<Vector2>, expected: int, i: int) -> int
    decreases path.len() - i,
    when 0 <= i <= path.len() - 1
{
    if i >= path.len() - 1 {
        i
    } else if expected - spec_acc_len(path.take(i + 1)) < spec_dist(path[i], path[i + 1]) {
        i
    } else {
        spec_clip_idx(path, expected, i + 1)
    }
}

proof fn lemma_clip_idx_at(path: Seq<Vector2>, expected: int, i: int, c: int)
    requires
        path.len() >= 1,
        0 <= i <= c <= path.len() - 1,
        forall|j: int|
            i <= j < c ==> !(expected - spec_acc_len(path.take(j + 1)) < spec_dist(
                path[j],
                #[trigger] path[j + 1],
            )),
        c < path.len() - 1 ==> expected - spec_acc_len(path.take(c + 1)) < spec_dist(
            path[c],
            path[c + 1],
        ),
    ensures
        spec_clip_idx(path, expected, i) == c,
    decreases c - i,
{
    if i < c {
        lemma_clip_idx_at(path, expected, i + 1, c);
    }
}

/// The vertex the walk clips or extends to: the segment start carried along
/// its displacement by the given fixed-point fraction.
pub open spec fn spec_interp_point(from: Vector2, to: Vector2, sc: int) -> Vector2 {
    Vector2 {
        x: spec_fx_add(
            from.x as int,
            spec_fx_mul(spec_fx_sub(to.x as int, from.x as int), sc),
        ) as i64,
        y: spec_fx_add(
            from.y as int,
            spec_fx_mul(spec_fx_sub(to.y as int, from.y as int), sc),
        ) as i64,
    }
}

/// The first `m` entries of the cumulative-length table of a polyline:
/// entry `k` is the walk's saturated total after `k` segments.
pub open spec fn spec_acc_table(path: Seq<Vector2>, m: int) -> Seq<i64>
    decreases m,
    when m >= 0
{
    if m <= 0 {
        Seq::<i64>::empty()
    } else {
        spec_acc_table(path, m - 1).push(spec_acc_len(path.take(m)) as i64)
    }
}

/// Exactly what resampling returns: the polyline and its cumulative-length
/// table. A walk that would overshoot clips the offending vertex and drops
/// the rest, ending the table at the declared length; a completed walk that
/// falls short extends the final vertex along its segment, unless that
/// segment has length zero, in which case the table is left short.
pub open spec fn spec_resample(path: Seq<Vector2>, expected: int) -> (Seq<Vector2>, Seq<i64>)
    recommends
        path.len() >= 1,
{
    let c = spec_clip_idx(path, expected, 0);
    if c < path.len() - 1 {
        let sc = spec_fx_div(
            spec_fx_sub(expected, spec_acc_len(path.take(c + 1))),
            spec_dist(path[c], path[c + 1]),
        );
        (
            path.take(c + 1).push(spec_interp_point(path[c], path[c + 1], sc)),
            spec_acc_table(path, c + 1).push(expected as i64),
        )
    } else {
        let total = spec_acc_len(path);
        let lens = spec_acc_table(path, path.len() as int);
        if total < expected && path.len() > 1 && spec_dist(
            path[path.len() - 2],
            path[path.len() - 1],
        ) != 0 {
            let sc = spec_fx_div(
                spec_fx_sub(expected, total),
                spec_dist(path[path.len() - 2], path[path.len() - 1]),
            );
            (
                path.update(
                    path.len() - 1,
                    Vector2 {
                        x: spec_fx_add(
                            path[path.len() - 1].x as int,
                            spec_fx_mul(
                                spec_fx_sub(
                                    path[path.len() - 1].x as int,
                                    path[path.len() - 2].x as int,
                                ),
                                sc,
                            ),
                        ) as i64,
                        y: spec_fx_add(
                            path[path.len() - 1].y as int,
                            spec_fx_mul(
                                spec_fx_sub(
                                    path[path.len() - 1].y as int,
                                    path[path.len() - 2].y as int,
                                ),
                                sc,
                            ),
                        ) as i64,
                    },
                ),
                lens.update(path.len() - 1, expected as i64),
            )
        } else {
            (path, lens)
        }
    }
}

proof fn lemma_clip_idx_range(path: Seq<Vector2>, expected: int, i: int)
    requires
        path.len() >= 1,
        0 <= i <= path.len() - 1,
    ensures
        i <= spec_clip_idx(path, expected, i) <= path.len() - 1,
    decreases path.len() - i,
{
    if i < path.len() - 1 && !(expected - spec_acc_len(path.take(i + 1)) < spec_dist(
        path[i],
        path[i + 1],
    )) {
        lemma_clip_idx_range(path, expected, i + 1);
    }
}

pub proof fn lemma_acc_table_len(path: Seq<Vector2>, m: int)
    requires
        m >= 0,
    ensures
        spec_acc_table(path, m).len() == m,
    decreases m,
{
    if m > 0 {
        lemma_acc_table_len(path, m - 1);
    }
}

/// A resampled table whose final entry misses the declared length comes
/// from a walk that neither clipped nor extended: the polyline is returned
/// unchanged.
pub proof fn lemma_resample_short(path: Seq<Vector2>, expected: int)
    requires
        path.len() >= 1,
        i64::MIN as int <= expected <= i64::MAX as int,
        spec_resample(path, expected).1[spec_resample(path, expected).1.len() - 1] != expected,
    ensures
        spec_resample(path, expected).0 == path,
{
    let c = spec_clip_idx(path, expected, 0);
    lemma_clip_idx_range(path, expected, 0);
    lemma_acc_table_len(path, c + 1);
    lemma_acc_table_len(path, path.len() as int);
    if c < path.len() - 1 {
        assert(spec_resample(path, expected).1 == spec_acc_table(path, c + 1).push(
            expected as i64,
        ));
        assert(spec_acc_table(path, c + 1).push(expected as i64)[c + 1] == expected as i64);
        assert(false);
    } else {
        let total = spec_acc_len(path);
        if total < expected && path.len() > 1 && spec_dist(
            path[path.len() - 2],
            path[path.len() - 1],
        ) != 0 {
            assert(spec_resample(path, expected).1 == spec_acc_table(
                path,
                path.len() as int,
            ).update(path.len() - 1, expected as i64));
            assert(spec_acc_table(path, path.len() as int).update(path.len() - 1, expected as i64)[
                path.len() - 1] == expected as i64);
            assert(false);
        }
    }
}

impl BeatmapFile {
    /// Resample a flattened path against the declared pixel length: walk the
    /// polyline accumulating distances; a vertex that would overshoot is
    /// clipped by linear interpolation and the rest dropped; a path that
    /// falls short is extended along its final segment, unless that segment
    /// has length zero. The table starts at zero, never decreases, never
    /// exceeds the declared length, and its final entry equals the declared
    /// length except in the documented short-path case.
    pub fn resample_body(path: Vec<Vector2>, expected: i64) -> (r: SliderBody)
        requires
            path@.len() >= 1,
            expected >= 0,
        ensures
            r.body@.len() >= 1,
            r.length@.len() == r.body@.len(),
            r.length@[0] == 0,
            forall|k: int| 0 <= k < r.length@.len() ==> 0 <= #[trigger] r.length@[k] <= expected,
            forall|k: int|
                0 <= k < r.length@.len() - 1 ==> #[trigger] r.length@[k] <= r.length@[k + 1],
            r.length@[r.length@.len() - 1] == expected || (r.length@[r.length@.len() - 1]
                == spec_acc_len(path@) && (path@.len() == 1 || spec_dist(
                path@[path@.len() - 2],
                path@[path@.len() - 1],
            ) == 0)),
            r.body@ == spec_resample(path@, expected as int).0,
            r.length@ == spec_resample(path@, expected as int).1,
    {
        let mut body: Vec<Vector2> = path;
        let ghost orig = body@;
        let n: usize = body.len();
        let mut lens: Vec<i64> = Vec::new();
        lens.push(0);
        proof {
            assert(spec_acc_len(orig.take(1)) == 0);
            assert(spec_acc_table(orig, 1) == spec_acc_table(orig, 0).push(0i64));
            assert(lens@ =~= spec_acc_table(orig, 1));
        }
        let mut total: i64 = 0;
        let mut i: usize = 0;
        let mut clipped: bool = false;
        while i < n - 1 && !clipped
            invariant
                1 <= n == orig.len(),
                expected >= 0,
                !clipped ==> body@ == orig,
                !clipped ==> {
                    &&& 0 <= i <= n - 1
                    &&& lens@.len() == i + 1
                    &&& total == spec_acc_len(orig.take(i as int + 1))
                    &&& lens@[lens@.len() - 1] == total
                    &&& lens@ == spec_acc_table(orig, i as int + 1)
                    &&& (forall|j: int|
                        0 <= j < i ==> !((expected as int) - spec_acc_len(orig.take(j + 1))
                            < spec_dist(orig[j], #[trigger] orig[j + 1])))
                },
                clipped ==> {
                    &&& body@.len() == lens@.len()
                    &&& lens@[lens@.len() - 1] == expected
                    &&& body@.len() >= 1
                    &&& body@ == spec_resample(orig, expected as int).0
                    &&& lens@ == spec_resample(orig, expected as int).1
                },
                lens@[0] == 0,
                forall|k: int| 0 <= k < lens@.len() ==> 0 <= #[trigger] lens@[k] <= expected,
                forall|k: int| 0 <= k < lens@.len() - 1 ==> #[trigger] lens@[k] <= lens@[k + 1],
                0 <= total <= expected,
            decreases n - i, (if clipped {
                0int
            } else {
                1int
            }),
        {
            let point: Vector2 = body[i];
            let next: Vector2 = body[i + 1];
            let difference: Vector2 = next.sub(point);
            let diff: i64 = difference.len();
            proof {
                lemma_acc_len_take(orig, i as int + 1);
            }
            if expected - total < diff {
                let scale: i64 = fx_div(fx_sub(expected, total), diff);
                let clipped_point: Vector2 = point.add(difference.scale(scale));
                proof {
                    lemma_clip_idx_at(orig, expected as int, 0, i as int);
                }
                body.set(i + 1, clipped_point);
                body.truncate(i + 2);
                total = expected;
                lens.push(expected);
                clipped = true;
                proof {
                    assert(lens@ == spec_acc_table(orig, i as int + 1).push(expected));
                    assert(body@ =~= orig.take(i as int + 1).push(clipped_point));
                    assert(clipped_point == spec_interp_point(
                        orig[i as int],
                        orig[i as int + 1],
                        spec_fx_div(
                            spec_fx_sub(expected as int, spec_acc_len(orig.take(i as int + 1))),
                            spec_dist(orig[i as int], orig[i as int + 1]),
                        ),
                    ));
                    assert(lens@ =~= spec_resample(orig, expected as int).1);
                    assert(body@ =~= spec_resample(orig, expected as int).0);
                }
            } else {
                total = fx_add(total, diff);
                lens.push(total);
                proof {
                    assert(spec_acc_table(orig, i as int + 2) == spec_acc_table(
                        orig,
                        i as int + 1,
                    ).push(spec_acc_len(orig.take(i as int + 2)) as i64));
                    assert(lens@ == spec_acc_table(orig, i as int + 2));
                }
            }
            i = i + 1;
        }
        proof {
            if !clipped {
                assert(orig.take(n as int) =~= orig);
                lemma_clip_idx_at(orig, expected as int, 0, n as int - 1);
                assert(lens@ == spec_acc_table(orig, n as int));
            }
        }
        if !clipped && total < expected && body.len() > 1 {
            let m: usize = body.len();
            let last: Vector2 = body[m - 1];
            let prev: Vector2 = body[m - 2];
            let difference: Vector2 = last.sub(prev);
            let diff: i64 = difference.len();
            if diff <= 0 {
                // the final segment has no direction: leave the table short
                proof {
                    assert(body@ =~= spec_resample(orig, expected as int).0);
                    assert(lens@ =~= spec_resample(orig, expected as int).1);
                }
            } else {
                let scale: i64 = fx_div(fx_sub(expected, total), diff);
                let extended: Vector2 = last.add(difference.scale(scale));
                body.set(m - 1, extended);
                let ll: usize = lens.len();
                lens.set(ll - 1, expected);
                proof {
                    assert(body@ =~= spec_resample(orig, expected as int).0);
                    assert(lens@ =~= spec_resample(orig, expected as int).1);
                }
            }
        } else {
            proof {
                if !clipped {
                    assert(body@ =~= spec_resample(orig, expected as int).0);
                    assert(lens@ =~= spec_resample(orig, expected as int).1);
                }
            }
        }
        SliderBody { body, length: lens }
    }
}

/// First index `>= i` whose table entry equals `d`, or the length.
pub open spec fn first_eq_idx(lens: Seq<i64>, d: i64, i: int) -> int
    decreases lens.len() - i,
    when 0 <= i <= lens.len()
{
    if i >= lens.len() {
        lens.len() as int
    } else if lens[i] == d {
        i
    } else {
        first_eq_idx(lens, d, i + 1)
    }
}

/// First index `>= i` whose table entry exceeds `d`, or the length.
pub open spec fn first_gt_idx(lens: Seq<i64>, d: i64, i: int) -> int
    decreases lens.len() - i,
    when 0 <= i <= lens.len()
{
    if i >= lens.len() {
        lens.len() as int
    } else if lens[i] > d {
        i
    } else {
        first_gt_idx(lens, d, i + 1)
    }
}

proof fn lemma_first_eq_at(lens: Seq<i64>, d: i64, i: int, j: int)
    requires
        0 <= i <= j <= lens.len(),
        forall|k: int| i <= k < j ==> #[trigger] lens[k] != d,
        j < lens.len() ==> lens[j] == d,
    ensures
        first_eq_idx(lens, d, i) == j,
    decreases j - i,
{
    if i < j {
        lemma_first_eq_at(lens, d, i + 1, j);
    }
}

proof fn lemma_first_gt_at(lens: Seq<i64>, d: i64, i: int, j: int)
    requires
        0 <= i <= j <= lens.len(),
        forall|k: int| i <= k < j ==> #[trigger] lens[k] <= d,
        j < lens.len() ==> lens[j] > d,
    ensures
        first_gt_idx(lens, d, i) == j,
    decreases j - i,
{
    if i < j {
        lemma_first_gt_at(lens, d, i + 1, j);
    }
}

/// The table index the position query settles on: the first exact match,
/// else the first entry exceeding the distance, else the last entry.
pub open spec fn spec_pick_idx(lens: Seq<i64>, d: i64) -> int {
    let e = first_eq_idx(lens, d, 0);
    if e < lens.len() {
        e
    } else {
        let g = first_gt_idx(lens, d, 0);
        if g < lens.len() {
            g
        } else {
            lens.len() - 1
        }
    }
}

/// The point a traveled distance maps to: the vertex at the settled index,
/// interpolated back toward its predecessor by the fraction of the distance
/// between their table entries; table entries closer than the precision
/// leniency yield the predecessor unchanged.
pub open spec fn spec_position_at(body: Seq<Vector2>, lens: Seq<i64>, d: i64) -> Vector2 {
    let idx = spec_pick_idx(lens, d);
    if idx <= 0 {
        body[0]
    } else if idx >= body.len() {
        body[body.len() - 1]
    } else if spec_fx_abs(spec_fx_sub(lens[idx - 1] as int, lens[idx] as int))
        <= PRECISION_LENIENCE as int {
        body[idx - 1]
    } else {
        let sc = spec_fx_div(
            spec_fx_sub(d as int, lens[idx - 1] as int),
            spec_fx_sub(lens[idx] as int, lens[idx - 1] as int),
        );
        Vector2 {
            x: spec_fx_add(
                body[idx - 1].x as int,
                spec_fx_mul(spec_fx_sub(body[idx].x as int, body[idx - 1].x as int), sc),
            ) as i64,
            y: spec_fx_add(
                body[idx - 1].y as int,
                spec_fx_mul(spec_fx_sub(body[idx].y as int, body[idx - 1].y as int), sc),
            ) as i64,
        }
    }
}

/// Interpolate the point a traveled distance along the slider body maps to.
pub fn position_at(body: &Vec<Vector2>, lens: &Vec<i64>, d: i64) -> (r: Vector2)
    requires
        body@.len() >= 1,
        lens@.len() == body@.len(),
    ensures
        r == spec_position_at(body@, lens@, d),
{
    let n: usize = lens.len();
    let mut i: usize = 0;
    while i < n && lens[i] != d
        invariant
            0 <= i <= n == lens@.len(),
            forall|k: int| 0 <= k < i ==> #[trigger] lens@[k] != d,
        decreases n - i,
    {
        i = i + 1;
    }
    proof {
        lemma_first_eq_at(lens@, d, 0, i as int);
    }
    let idx: usize = if i < n {
        i
    } else {
        let mut g: usize = 0;
        while g < n && lens[g] <= d
            invariant
                0 <= g <= n == lens@.len(),
                forall|k: int| 0 <= k < g ==> #[trigger] lens@[k] <= d,
            decreases n - g,
        {
            g = g + 1;
        }
        proof {
            lemma_first_gt_at(lens@, d, 0, g as int);
        }
        if g < n {
            g
        } else {
            n - 1
        }
    };
    if idx <= 0 {
        body[0]
    } else if idx >= body.len() {
        body[body.len() - 1]
    } else {
        let d_start: i64 = lens[idx - 1];
        let d_end: i64 = lens[idx];
        if fx_abs(fx_sub(d_start, d_end)) <= PRECISION_LENIENCE {
            body[idx - 1]
        } else {
            let sc: i64 = fx_div(fx_sub(d, d_start), fx_sub(d_end, d_start));
            let start: Vector2 = body[idx - 1];
            let end: Vector2 = body[idx];
            start.add(end.sub(start).scale(sc))
        }
    }
}

pub proof fn lemma_dedup_len(s: Seq<Vector2>)
    ensures
        s.len() == 0 ==> spec_dedup(s).len() == 0,
        s.len() > 0 ==> spec_dedup(s).len() >= 1,
    decreases s.len(),
{
    if s.len() > 0 {
        lemma_dedup_len(s.drop_last());
    }
}

proof fn lemma_dedup_take_step(s: Seq<Vector2>, j: int)
    requires
        0 <= j < s.len(),
    ensures
        spec_dedup(s.take(j + 1)) == (if spec_dedup(s.take(j)).len() == 0 || spec_dedup(
            s.take(j),
        )[spec_dedup(s.take(j)).len() - 1] != s[j] {
            spec_dedup(s.take(j)).push(s[j])
        } else {
            spec_dedup(s.take(j))
        }),
{
    let t = s.take(j + 1);
    assert(t.drop_last() =~= s.take(j));
    assert(t[t.len() - 1] == s[j]);
}

impl BeatmapFile {
    /// Flatten a slider's control points: split the sequence at consecutive
    /// duplicated points, approximate each run by the curve type, and
    /// concatenate with consecutive duplicates collapsed. A Linear path is
    /// exactly the deduplicated control-point sequence. The result is never
    /// empty.
    pub fn build_flattened_path(curve_type: CurveType, slider_points: &Vec<Vector2>) -> (r: Vec<
        Vector2,
    >)
        requires
            slider_points@.len() >= 1,
        ensures
            r@.len() >= 1,
            curve_type == CurveType::Linear ==> r@ == spec_dedup(slider_points@),
    {
        let n: usize = slider_points.len();
        let mut body: Vec<Vector2> = Vec::new();
        proof {
            assert(slider_points@.take(0) =~= Seq::<Vector2>::empty());
        }
        let mut start: usize = 0;
        let mut i: usize = 0;
        while i < n
            invariant
                1 <= n == slider_points@.len(),
                0 <= start <= i <= n,
                i >= n ==> start == n,
                curve_type == CurveType::Linear ==> body@ == spec_dedup(
                    slider_points@.take(start as int),
                ),
            decreases n - i,
        {
            let boundary: bool = i == n - 1 || (slider_points[i].x == slider_points[i + 1].x
                && slider_points[i].y == slider_points[i + 1].y);
            if boundary {
                let mut sub_path: Vec<Vector2> = Vec::new();
                let mut k: usize = start;
                while k < i + 1
                    invariant
                        start <= k <= i + 1 <= n == slider_points@.len(),
                        sub_path@.len() == k - start,
                        forall|m: int|
                            0 <= m < k - start ==> sub_path@[m] == slider_points@[start + m],
                    decreases i + 1 - k,
                {
                    sub_path.push(slider_points[k]);
                    k = k + 1;
                }
                let approximated: Vec<Vector2> = if curve_type == CurveType::Linear {
                    sub_path
                } else if curve_type == CurveType::PerfectCurve {
                    if n != 3 || sub_path.len() != 3 {
                        Self::approximate_bezier(&sub_path)
                    } else {
                        let arc: Vec<Vector2> = Self::approximate_perfect_curve(&sub_path);
                        if arc.len() == 0 {
                            Self::approximate_bezier(&sub_path)
                        } else {
                            arc
                        }
                    }
                } else if curve_type == CurveType::Catmull {
                    Self::approximate_catmull(&sub_path)
                } else {
                    Self::approximate_bezier(&sub_path)
                };
                let m: usize = approximated.len();
                let mut j: usize = 0;
                while j < m
                    invariant
                        0 <= j <= m == approximated@.len(),
                        n == slider_points@.len(),
                        start <= i + 1 <= n,
                        curve_type == CurveType::Linear ==> {
                            &&& approximated@.len() == i + 1 - start
                            &&& (forall|q: int|
                                0 <= q < approximated@.len() ==> approximated@[q]
                                    == slider_points@[start + q])
                            &&& body@ == spec_dedup(slider_points@.take(start + j))
                        },
                    decreases m - j,
                {
                    proof {
                        if curve_type == CurveType::Linear {
                            lemma_dedup_take_step(slider_points@, start + j);
                        }
                    }
                    let p: Vector2 = approximated[j];
                    dedup_push(&mut body, p);
                    j = j + 1;
                }
                start = i + 1;
            }
            i = i + 1;
        }
        proof {
            if curve_type == CurveType::Linear {
                assert(slider_points@.take(n as int) =~= slider_points@);
                lemma_dedup_len(slider_points@);
            }
        }
        if body.len() == 0 {
            body.push(slider_points[0]);
        }
        body
    }
}

use crate::parser::beatmap::objects::{SliderObject, SliderObjectType};

/// How many sub-objects of one kind a sequence holds.
pub open spec fn kind_count(s: Seq<SliderObject>, k: SliderObjectType) -> int
    decreases s.len(),
{
    if s.len() == 0 {
        0
    } else {
        kind_count(s.drop_last(), k) + (if s.last().slider_object_type == k {
            1int
        } else {
            0int
        })
    }
}

pub proof fn lemma_kind_count_push(s: Seq<SliderObject>, x: SliderObject, k: SliderObjectType)
    ensures
        kind_count(s.push(x), k) == kind_count(s, k) + (if x.slider_object_type == k {
            1int
        } else {
            0int
        }),
{
    assert(s.push(x).drop_last() =~= s);
}

proof fn lemma_kind_count_add(a: Seq<SliderObject>, b: Seq<SliderObject>, k: SliderObjectType)
    ensures
        kind_count(a + b, k) == kind_count(a, k) + kind_count(b, k),
    decreases b.len(),
{
    if b.len() == 0 {
        assert(a + b =~= a);
    } else {
        assert((a + b).drop_last() =~= a + b.drop_last());
        assert((a + b).last() == b.last());
        lemma_kind_count_add(a, b.drop_last(), k);
    }
}

proof fn lemma_kind_count_insert(s: Seq<SliderObject>, i: int, x: SliderObject, k: SliderObjectType)
    requires
        0 <= i <= s.len(),
    ensures
        kind_count(s.insert(i, x), k) == kind_count(s, k) + (if x.slider_object_type == k {
            1int
        } else {
            0int
        }),
{
    assert(s.insert(i, x) =~= (s.take(i) + seq![x]) + s.skip(i));
    assert(s =~= s.take(i) + s.skip(i));
    lemma_kind_count_add(s.take(i) + seq![x], s.skip(i), k);
    lemma_kind_count_add(s.take(i), seq![x], k);
    lemma_kind_count_add(s.take(i), s.skip(i), k);
    assert(seq![x].drop_last() =~= Seq::<SliderObject>::empty());
    assert(kind_count(Seq::<SliderObject>::empty(), k) == 0);
    assert(seq![x].last() == x);
    assert(kind_count(seq![x], k) == (if x.slider_object_type == k {
        1int
    } else {
        0int
    }));
}

/// The sequence holds exactly the given number of heads, ticks, repeats
/// and ends.
pub open spec fn spec_kind_counts(
    s: Seq<SliderObject>,
    heads: int,
    ticks: int,
    repeats: int,
    ends: int,
) -> bool {
    &&& kind_count(s, SliderObjectType::SliderHead) == heads
    &&& kind_count(s, SliderObjectType::SliderTick) == ticks
    &&& kind_count(s, SliderObjectType::SliderRepeat) == repeats
    &&& kind_count(s, SliderObjectType::SliderEnd) == ends
}

proof fn lemma_kind_count_push_all(s: Seq<SliderObject>, x: SliderObject)
    ensures
        forall|k: SliderObjectType| #[trigger] kind_count(s.push(x), k) == kind_count(s, k) + (
        if x.slider_object_type == k {
            1int
        } else {
            0int
        }),
{
    assert forall|k: SliderObjectType| #[trigger] kind_count(s.push(x), k) == kind_count(s, k) + (
    if x.slider_object_type == k {
        1int
    } else {
        0int
    }) by {
        lemma_kind_count_push(s, x, k);
    }
}

/// Sub-objects in non-decreasing timestamp order.
pub open spec fn spec_sorted_by_time(s: Seq<SliderObject>) -> bool {
    forall|a: int, b: int|
        0 <= a < b < s.len() ==> (#[trigger] s[a]).start_time <= (#[trigger] s[b]).start_time
}

proof fn lemma_insert_multiset(s: Seq<SliderObject>, i: int, x: SliderObject)
    requires
        0 <= i <= s.len(),
    ensures
        s.insert(i, x).to_multiset() == s.to_multiset().insert(x),
{
    broadcast use vstd::seq_lib::group_seq_properties;

    let t = s.insert(i, x);
    assert(t =~= s.take(i).push(x) + s.skip(i));
    assert(s =~= s.take(i) + s.skip(i));
    vstd::seq_lib::lemma_multiset_commutative(s.take(i).push(x), s.skip(i));
    vstd::seq_lib::lemma_multiset_commutative(s.take(i), s.skip(i));
    assert(s.take(i).push(x).to_multiset() =~= s.take(i).to_multiset().insert(x));
    assert(t.to_multiset() =~= s.to_multiset().insert(x));
}

/// Sort slider sub-objects by timestamp: a stable insertion sort. The result
/// is a permutation of the input, non-decreasing in `start_time`.
pub fn sort_by_time(objs: Vec<SliderObject>) -> (r: Vec<SliderObject>)
    ensures
        r@.len() == objs@.len(),
        r@.to_multiset() == objs@.to_multiset(),
        spec_sorted_by_time(r@),
        forall|k: SliderObjectType| #[trigger] kind_count(r@, k) == kind_count(objs@, k),
{
    broadcast use vstd::seq_lib::group_seq_properties;

    let n: usize = objs.len();
    let mut out: Vec<SliderObject> = Vec::new();
    proof {
        assert(objs@.take(0) =~= Seq::<SliderObject>::empty());
        assert(out@.to_multiset() =~= objs@.take(0).to_multiset());
    }
    let mut i: usize = 0;
    while i < n
        invariant
            0 <= i <= n == objs@.len(),
            out@.len() == i,
            out@.to_multiset() == objs@.take(i as int).to_multiset(),
            forall|k: SliderObjectType| #[trigger] kind_count(out@, k) == kind_count(
                objs@.take(i as int),
                k,
            ),
            forall|a: int, b: int|
                0 <= a < b < out@.len() ==> (#[trigger] out@[a]).start_time <= (
                #[trigger] out@[b]).start_time,
        decreases n - i,
    {
        let x: SliderObject = objs[i];
        let mut k: usize = out.len();
        while k > 0 && out[k - 1].start_time > x.start_time
            invariant
                0 <= k <= out@.len(),
                forall|j: int| k <= j < out@.len() ==> (#[trigger] out@[j]).start_time
                    > x.start_time,
                forall|a: int, b: int|
                    0 <= a < b < out@.len() ==> (#[trigger] out@[a]).start_time <= (
                    #[trigger] out@[b]).start_time,
            decreases k,
        {
            k = k - 1;
        }
        let ghost before = out@;
        out.insert(k, x);
        proof {
            lemma_insert_multiset(before, k as int, x);
            objs@.take(i as int).to_multiset_ensures();
            assert(objs@.take(i as int + 1) =~= objs@.take(i as int).push(objs@[i as int]));
            assert forall|kd: SliderObjectType| #[trigger] kind_count(out@, kd) == kind_count(
                objs@.take(i as int + 1),
                kd,
            ) by {
                lemma_kind_count_insert(before, k as int, x, kd);
                lemma_kind_count_push(objs@.take(i as int), objs@[i as int], kd);
            }
            assert(objs@.take(i as int + 1).to_multiset() =~= objs@.take(
                i as int,
            ).to_multiset().insert(x));
            assert forall|a: int, b: int|
                0 <= a < b < out@.len() implies (#[trigger] out@[a]).start_time <= (
            #[trigger] out@[b]).start_time by {
                if b < k {
                } else if a < k && b == k {
                    assert(out@[a] == before[a]);
                    if k > 0 {
                        assert(before[a].start_time <= before[k - 1].start_time || a == k - 1);
                    }
                } else if a == k {
                    assert(out@[b] == before[b - 1]);
                } else if a < k {
                    assert(out@[a] == before[a]);
                    assert(out@[b] == before[b - 1]);
                } else {
                    assert(out@[a] == before[a - 1]);
                    assert(out@[b] == before[b - 1]);
                }
            }
        }
        i = i + 1;
    }
    proof {
        assert(objs@.take(n as int) =~= objs@);
    }
    out
}

/// Offset subtracted from a slider's end time for its final judgement.
pub const LEGACY_TICK_OFFSET: i64 = 3600000;

/// How many ticks one span walk emits: saturating steps of `step`, starting
/// at `d`, while below `limit`.
pub open spec fn spec_ticks_from(d: int, limit: int, step: int) -> int
    decreases
            (if d < limit {
                limit - d
            } else {
                0int
            }),
    when step >= 1 && limit <= i64::MAX as int
{
    if d >= limit {
        0
    } else {
        1 + spec_ticks_from(spec_fx_add(d, step), limit, step)
    }
}

proof fn lemma_ticks_nonneg(d: int, limit: int, step: int)
    requires
        step >= 1,
        limit <= i64::MAX as int,
    ensures
        0 <= spec_ticks_from(d, limit, step) <= (if d < limit {
            limit - d
        } else {
            0int
        }),
    decreases
            (if d < limit {
                limit - d
            } else {
                0int
            }),
{
    if d < limit {
        lemma_ticks_nonneg(spec_fx_add(d, step), limit, step);
    }
}

/// The walk's upper bound: the capped length minus the keep-out distance
/// before a span's end.
pub open spec fn spec_tick_limit(expected: int, velocity: int) -> int {
    let length2 = if 10000000000 <= expected {
        10000000000int
    } else {
        expected
    };
    spec_fx_sub(length2, spec_fx_mul(velocity, 1000000))
}

/// The tick spacing after forcing it into `[0, capped length]`.
pub open spec fn spec_certified_tick_distance(tick_distance: int, expected: int) -> int {
    let length2 = if 10000000000 <= expected {
        10000000000int
    } else {
        expected
    };
    let m = if tick_distance >= 0 {
        tick_distance
    } else {
        0int
    };
    if m <= length2 {
        m
    } else {
        length2
    }
}

/// Ticks over the whole slider: the per-span walk count times the span
/// count; a zero certified spacing walks nothing.
pub open spec fn spec_total_ticks(
    tick_distance: int,
    expected: int,
    velocity: int,
    span_count: int,
) -> int {
    if spec_certified_tick_distance(tick_distance, expected) == 0 {
        0
    } else {
        span_count * spec_ticks_from(
            tick_distance,
            spec_tick_limit(expected, velocity),
            tick_distance,
        )
    }
}

/// Derive a slider's sub-objects: one head, the ticks of every span (their
/// positions read back from the body, direction reversed on odd spans), one
/// repeat per interior span boundary, and one end, sorted by timestamp.
/// With no ticks, exactly `spanCount + 1` sub-objects come back.
pub fn build_slider_objects(
    position: Vector2,
    end_position: Vector2,
    start_time: i64,
    end_time: i64,
    duration: i64,
    expected: i64,
    velocity: i64,
    tick_distance: i64,
    repeat_count: i32,
    body: &Vec<Vector2>,
    lens: &Vec<i64>,
) -> (r: Vec<SliderObject>)
    requires
        body@.len() >= 1,
        lens@.len() == body@.len(),
        expected >= 0,
        0 <= repeat_count < i32::MAX,
    ensures
        r@.len() == 2 + repeat_count + spec_total_ticks(
            tick_distance as int,
            expected as int,
            velocity as int,
            repeat_count as int + 1,
        ),
        spec_total_ticks(
            tick_distance as int,
            expected as int,
            velocity as int,
            repeat_count as int + 1,
        ) == 0 ==> r@.len() == repeat_count + 2,
        r@.len() >= 2 + repeat_count,
        spec_sorted_by_time(r@),
        spec_kind_counts(
            r@,
            1,
            spec_total_ticks(
                tick_distance as int,
                expected as int,
                velocity as int,
                repeat_count as int + 1,
            ),
            repeat_count as int,
            1,
        ),
{
    let span_count: i32 = repeat_count + 1;
    let mut objs: Vec<SliderObject> = Vec::new();
    let head: SliderObject = SliderObject {
        x: position.x,
        y: position.y,
        position,
        start_time,
        span_index: 0,
        repeat_index: 0,
        span_start_time: 0,
        slider_object_type: SliderObjectType::SliderHead,
    };
    let ghost o0 = objs@;
    objs.push(head);
    proof {
        lemma_kind_count_push_all(o0, head);
        assert(kind_count(o0, SliderObjectType::SliderHead) == 0);
        assert(kind_count(o0, SliderObjectType::SliderTick) == 0);
        assert(kind_count(o0, SliderObjectType::SliderRepeat) == 0);
        assert(kind_count(o0, SliderObjectType::SliderEnd) == 0);
        assert(spec_kind_counts(objs@, 1, 0, 0, 0));
    }
    let length2: i64 = crate::fx::fx_min(10000000000, expected);
    let certified: i64 = crate::fx::fx_min(crate::fx::fx_max(tick_distance, 0), length2);
    let ghost limit_g = spec_tick_limit(expected as int, velocity as int);
    let ghost per_span = spec_ticks_from(tick_distance as int, limit_g, tick_distance as int);
    if certified != 0 {
        let min_dist: i64 = fx_mul(velocity, 1000000);
        let span_duration: i64 = fx_div(duration, crate::fx::fx_of_int(span_count as i64));
        let limit: i64 = fx_sub(length2, min_dist);
        proof {
            assert(limit as int == limit_g);
            assert(tick_distance >= 1);
            lemma_ticks_nonneg(tick_distance as int, limit_g, tick_distance as int);
        }
        let mut span: u64 = 0;
        while span < span_count as u64
            invariant
                0 <= span <= span_count as u64,
                span_count == repeat_count + 1,
                0 < span_count <= i32::MAX,
                tick_distance >= 1,
                limit as int == limit_g,
                per_span == spec_ticks_from(tick_distance as int, limit_g, tick_distance as int),
                0 <= per_span <= i64::MAX as int,
                objs@.len() == 1 + span * per_span,
                spec_kind_counts(objs@, 1, objs@.len() - 1, 0, 0),
                expected >= 0,
                body@.len() >= 1,
                lens@.len() == body@.len(),
            decreases span_count as u64 - span,
        {
            let span_start: i64 = fx_add(start_time, fx_mul(crate::fx::fx_of_int(span as i64), span_duration));
            let reversed: bool = span % 2 == 1;
            let mut d: i64 = tick_distance;
            let ghost base = objs@.len();
            let mut emitted: u64 = 0;
            while d < limit
                invariant
                    tick_distance >= 1,
                    limit as int == limit_g,
                    per_span == emitted + spec_ticks_from(d as int, limit_g, tick_distance as int),
                    0 <= per_span <= i64::MAX as int,
                    objs@.len() == base + emitted,
                    emitted <= per_span,
                    spec_kind_counts(objs@, 1, objs@.len() - 1, 0, 0),
                    expected >= 0,
                    body@.len() >= 1,
                    lens@.len() == body@.len(),
                decreases
                        (if d < limit {
                            limit - d
                        } else {
                            0int
                        }),
            {
                proof {
                    lemma_ticks_nonneg(
                        spec_fx_add(d as int, tick_distance as int),
                        limit_g,
                        tick_distance as int,
                    );
                }
                let progress: i64 = fx_div(d, length2);
                let time_progress: i64 = if reversed {
                    fx_sub(crate::fx::SCALE, progress)
                } else {
                    progress
                };
                let distance: i64 = fx_mul(crate::fx::fx_clamp(progress, 0, crate::fx::SCALE), expected);
                let vertice: Vector2 = position_at(body, lens, distance);
                let tick_position: Vector2 = position.add(vertice);
                let tick: SliderObject = SliderObject {
                    x: tick_position.x,
                    y: tick_position.y,
                    position: tick_position,
                    start_time: fx_add(span_start, fx_mul(time_progress, span_duration)),
                    span_index: span as i32,
                    repeat_index: 0,
                    span_start_time: span_start,
                    slider_object_type: SliderObjectType::SliderTick,
                };
                let ghost ot = objs@;
                objs.push(tick);
                proof {
                    lemma_kind_count_push_all(ot, tick);
                }
                emitted = emitted + 1;
                d = fx_add(d, tick_distance);
            }
            proof {
                assert((span as int + 1) * per_span == span as int * per_span + per_span)
                    by (nonlinear_arith);
            }
            span = span + 1;
        }
        proof {
            assert(objs@.len() == 1 + (span_count as int) * per_span);
        }
    }
    let ghost ticks_total = objs@.len() - 1;
    proof {
        if certified != 0 {
            assert(spec_certified_tick_distance(tick_distance as int, expected as int) != 0);
            assert(ticks_total == spec_total_ticks(
                tick_distance as int,
                expected as int,
                velocity as int,
                repeat_count as int + 1,
            ));
        } else {
            assert(spec_certified_tick_distance(tick_distance as int, expected as int) == 0);
        }
    }
    let span_duration2: i64 = fx_div(duration, crate::fx::fx_of_int(span_count as i64));
    let mut repeat_index: u64 = 0;
    while repeat_index < repeat_count as u64
        invariant
            0 <= repeat_index <= repeat_count as u64,
            0 <= repeat_count < i32::MAX,
            objs@.len() == 1 + ticks_total + repeat_index,
            ticks_total >= 0,
            spec_kind_counts(objs@, 1, ticks_total, repeat_index as int, 0),
            body@.len() >= 1,
            lens@.len() == body@.len(),
        decreases repeat_count as u64 - repeat_index,
    {
        let distance: i64 = if repeat_index % 2 == 0 {
            expected
        } else {
            0
        };
        let vertice: Vector2 = position_at(body, lens, distance);
        let repeat_position: Vector2 = position.add(vertice);
        let marker: SliderObject = SliderObject {
            x: repeat_position.x,
            y: repeat_position.y,
            position: repeat_position,
            start_time: fx_add(
                start_time,
                fx_mul(crate::fx::fx_of_int(repeat_index as i64 + 1), span_duration2),
            ),
            span_index: 0,
            repeat_index: repeat_index as i32,
            span_start_time: span_duration2,
            slider_object_type: SliderObjectType::SliderRepeat,
        };
        let ghost orp = objs@;
        objs.push(marker);
        proof {
            lemma_kind_count_push_all(orp, marker);
        }
        repeat_index = repeat_index + 1;
    }
    let tail: SliderObject = SliderObject {
        x: end_position.x,
        y: end_position.y,
        position: end_position,
        start_time: crate::fx::fx_max(
            fx_add(start_time, fx_div(duration, 200000)),
            fx_sub(end_time, LEGACY_TICK_OFFSET),
        ),
        span_index: 0,
        repeat_index: 0,
        span_start_time: 0,
        slider_object_type: SliderObjectType::SliderEnd,
    };
    let ghost oe = objs@;
    objs.push(tail);
    proof {
        lemma_kind_count_push_all(oe, tail);
    }
    sort_by_time(objs)
}

} // verus!
