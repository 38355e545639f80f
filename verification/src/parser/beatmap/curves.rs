//! Curve approximation: Bezier subdivision, circular arcs and Catmull-Rom.

use vstd::prelude::*;

use crate::fx::{
    fx_abs, fx_add, fx_div, fx_mul, fx_of_int, fx_sub, spec_fx_abs, spec_fx_add, spec_fx_hypot,
    spec_fx_mul, spec_fx_sub, SCALE,
};
use crate::parser::beatmap::BeatmapFile;
use crate::trig::{fx_acos, fx_atan2, fx_cos, fx_sin, FX_PI, FX_TWO_PI};
use crate::util::Vector2;

verus! {

/// Flatness tolerance of the Bezier subdivision.
pub const BEZIER_TOLERANCE: i64 = 25000;

/// Tolerance below which a squared length or a weight sum counts as zero.
pub const PRECISION_LENIENCE: i64 = 100;

/// Samples per Catmull-Rom segment.
pub const CATMULL_DETAIL: usize = 50;

/// Split one Bezier control polygon at its midpoints: the two halves of a
/// de Casteljau step.
fn subdivide_bezier(parent: &Vec<Vector2>) -> (res: (Vec<Vector2>, Vec<Vector2>))
    requires
        parent@.len() >= 1,
    ensures
        res.0@.len() == parent@.len(),
        res.1@.len() == parent@.len(),
        res.0@[0] == parent@[0],
        res.1@[parent@.len() - 1] == parent@[parent@.len() - 1],
{
    let n: usize = parent.len();
    let mut mid: Vec<Vector2> = Vec::new();
    let mut i: usize = 0;
    while i < n
        invariant
            0 <= i <= n == parent@.len(),
            mid@.len() == i,
            forall|k: int| 0 <= k < i ==> mid@[k] == parent@[k],
        decreases n - i,
    {
        mid.push(parent[i]);
        i = i + 1;
    }
    let mut left: Vec<Vector2> = Vec::new();
    let mut right: Vec<Vector2> = Vec::new();
    let mut j: usize = 0;
    while j < n
        invariant
            0 <= j <= n == parent@.len(),
            right@.len() == j,
        decreases n - j,
    {
        right.push(Vector2::new(0, 0));
        j = j + 1;
    }
    let mut step: usize = 0;
    while step < n
        invariant
            0 <= step <= n == parent@.len(),
            mid@.len() == n,
            left@.len() == step,
            right@.len() == n,
            step >= 1 ==> left@[0] == parent@[0],
            step >= 1 ==> right@[n - 1] == parent@[n - 1],
            step == 0 ==> mid@ == parent@,
        decreases n - step,
    {
        left.push(mid[0]);
        let tail: Vector2 = mid[n - step - 1];
        right.set(n - step - 1, tail);
        proof {
            if step == 0 {
                assert(left@[0] == parent@[0]);
                assert(right@[n - 1] == parent@[n - 1]);
            }
        }
        let mut k: usize = 0;
        while k < n - step - 1
            invariant
                0 <= k,
                k + step <= n,
                mid@.len() == n,
                n == parent@.len(),
                step < n,
                left@.len() == step + 1,
                right@.len() == n,
                left@[0] == parent@[0],
                right@[n - 1] == parent@[n - 1],
            decreases n - step - k,
        {
            let a: Vector2 = mid[k];
            let b: Vector2 = mid[k + 1];
            mid.set(k, a.add(b).div(200000));
            k = k + 1;
        }
        step = step + 1;
    }
    (left, right)
}

/// Is a control polygon flat enough to emit directly? True when every
/// second difference has squared length within four squared tolerances.
fn bezier_flat_enough(parent: &Vec<Vector2>) -> (r: bool)
    requires
        parent@.len() >= 1,
{
    let n: usize = parent.len();
    let mut i: usize = 1;
    while i < n - 1
        invariant
            1 <= i,
            n == parent@.len(),
            n >= 1,
        decreases n - i,
    {
        let twice: Vector2 = parent[i].scale(200000);
        let diff: Vector2 = parent[i - 1].sub(twice).add(parent[i + 1]);
        let l: i64 = diff.len();
        if fx_mul(l, l) > 25000 {
            return false;
        }
        i = i + 1;
    }
    true
}

impl BeatmapFile {
    /// Flatten one Bezier control polygon by midpoint subdivision. An empty
    /// input yields an empty path; otherwise the path begins and ends at the
    /// polygon's endpoints.
    pub fn approximate_bezier(sub_points: &Vec<Vector2>) -> (r: Vec<Vector2>)
        ensures
            sub_points@.len() == 0 ==> r@.len() == 0,
            sub_points@.len() >= 1 ==> r@.len() >= 2 && r@[0] == sub_points@[0] && r@[r@.len()
                - 1] == sub_points@[sub_points@.len() - 1],
    {
        let n: usize = sub_points.len();
        let mut path: Vec<Vector2> = Vec::new();
        if n == 0 {
            return path;
        }
        let mut first: Vec<Vector2> = Vec::new();
        let mut i: usize = 0;
        while i < n
            invariant
                0 <= i <= n == sub_points@.len(),
                first@.len() == i,
                forall|k: int| 0 <= k < i ==> first@[k] == sub_points@[k],
            decreases n - i,
        {
            first.push(sub_points[i]);
            i = i + 1;
        }
        let mut to_flatten: Vec<Vec<Vector2>> = Vec::new();
        to_flatten.push(first);
        // a generous budget bounds the subdivision; no practical control
        // polygon comes near it
        let mut fuel: u64 = 16777216;
        while to_flatten.len() > 0 && fuel > 0
            invariant
                n == sub_points@.len(),
                n >= 1,
                forall|k: int| 0 <= k < to_flatten@.len() ==> (#[trigger] to_flatten@[k])@.len()
                    == n,
                path@.len() == 0 ==> to_flatten@.len() > 0 && to_flatten@[to_flatten@.len()
                    - 1]@[0] == sub_points@[0],
                path@.len() > 0 ==> path@[0] == sub_points@[0],
            decreases fuel,
        {
            fuel = fuel - 1;
            let parent: Vec<Vector2> = match to_flatten.pop() {
                Some(p) => p,
                None => {
                    return path;  // never taken: the loop guard holds
                },
            };
            if bezier_flat_enough(&parent) {
                // emit this polygon's approximation from one more subdivision
                let pair: (Vec<Vector2>, Vec<Vector2>) = subdivide_bezier(&parent);
                let l: Vec<Vector2> = pair.0;
                let rgt: Vec<Vector2> = pair.1;
                path.push(parent[0]);
                let mut e: usize = 1;
                while e < n - 1
                    invariant
                        1 <= e,
                        n >= 1,
                        n == sub_points@.len(),
                        l@.len() == n,
                        rgt@.len() == n,
                        path@.len() > 0,
                        path@[0] == sub_points@[0],
                    decreases n - e,
                {
                    // combined control points: `l` then `rgt` past its head
                    let i0: u128 = 2 * (e as u128) - 1;
                    let nn: u128 = n as u128;
                    let p_a: Vector2 = if i0 < nn {
                        l[i0 as usize]
                    } else {
                        rgt[(i0 - nn + 1) as usize]
                    };
                    let p_b: Vector2 = if i0 + 1 < nn {
                        l[(i0 + 1) as usize]
                    } else {
                        rgt[(i0 + 1 - nn + 1) as usize]
                    };
                    let p_c: Vector2 = if i0 + 2 < nn {
                        l[(i0 + 2) as usize]
                    } else {
                        rgt[(i0 + 2 - nn + 1) as usize]
                    };
                    let vector: Vector2 = p_a.add(p_b.scale(200000).add(p_c)).scale(25000);
                    path.push(vector);
                    e = e + 1;
                }
            } else {
                let pair: (Vec<Vector2>, Vec<Vector2>) = subdivide_bezier(&parent);
                to_flatten.push(pair.1);
                to_flatten.push(pair.0);
            }
        }
        if path.len() == 0 {
            path.push(sub_points[0]);
        }
        path.push(sub_points[n - 1]);
        path
    }
}

/// The squared fixed-point distance between two points, as the arc fitter
/// measures it: the squared rounded length.
pub open spec fn spec_sq_dist(a: Vector2, b: Vector2) -> int {
    let l = spec_fx_hypot(
        spec_fx_sub(a.x as int, b.x as int),
        spec_fx_sub(a.y as int, b.y as int),
    );
    spec_fx_mul(l, l)
}

/// The degeneracy test of the circular-arc fitter: some side is as good as
/// zero, or the barycentric weights cancel.
pub open spec fn spec_arc_degenerate(p1: Vector2, p2: Vector2, p3: Vector2) -> bool {
    let sq1 = spec_sq_dist(p2, p3);
    let sq2 = spec_sq_dist(p1, p3);
    let sq3 = spec_sq_dist(p1, p2);
    if spec_fx_abs(sq1) <= PRECISION_LENIENCE as int || spec_fx_abs(sq2)
        <= PRECISION_LENIENCE as int || spec_fx_abs(sq3) <= PRECISION_LENIENCE as int {
        true
    } else {
        let s1 = spec_fx_mul(sq1, spec_fx_sub(spec_fx_add(sq2, sq3), sq1));
        let s2 = spec_fx_mul(sq2, spec_fx_sub(spec_fx_add(sq1, sq3), sq2));
        let s3 = spec_fx_mul(sq3, spec_fx_sub(spec_fx_add(sq1, sq2), sq3));
        let total = spec_fx_add(spec_fx_add(s1, s2), s3);
        spec_fx_abs(total) <= PRECISION_LENIENCE as int
    }
}

fn sq_dist(a: Vector2, b: Vector2) -> (r: i64)
    ensures
        r as int == spec_sq_dist(a, b),
{
    let l: i64 = a.distance(b);
    fx_mul(l, l)
}

impl BeatmapFile {
    /// Fit the circle through three points and emit points along its arc,
    /// about the fitted circumcenter, in the rotational direction the middle
    /// point selects. Degenerate triples (per `spec_arc_degenerate`) yield an
    /// empty path; otherwise at least two points come back, beginning at the
    /// first control point and ending at the third.
    pub fn approximate_perfect_curve(sub_points: &Vec<Vector2>) -> (r: Vec<Vector2>)
        requires
            sub_points@.len() == 3,
        ensures
            r@.len() == 0 <==> spec_arc_degenerate(sub_points@[0], sub_points@[1], sub_points@[2]),
            r@.len() != 0 ==> r@.len() >= 2 && r@[0] == sub_points@[0] && r@[r@.len() - 1]
                == sub_points@[2],
    {
        let point1: Vector2 = sub_points[0];
        let point2: Vector2 = sub_points[1];
        let point3: Vector2 = sub_points[2];

        let point1_sq: i64 = sq_dist(point2, point3);
        let point2_sq: i64 = sq_dist(point1, point3);
        let point3_sq: i64 = sq_dist(point1, point2);

        if fx_abs(point1_sq) <= PRECISION_LENIENCE || fx_abs(point2_sq) <= PRECISION_LENIENCE
            || fx_abs(point3_sq) <= PRECISION_LENIENCE {
            return Vec::new();
        }
        let point1_s: i64 = fx_mul(point1_sq, fx_sub(fx_add(point2_sq, point3_sq), point1_sq));
        let point2_s: i64 = fx_mul(point2_sq, fx_sub(fx_add(point1_sq, point3_sq), point2_sq));
        let point3_s: i64 = fx_mul(point3_sq, fx_sub(fx_add(point1_sq, point2_sq), point3_sq));
        let point_sum: i64 = fx_add(fx_add(point1_s, point2_s), point3_s);
        if fx_abs(point_sum) <= PRECISION_LENIENCE {
            return Vec::new();
        }
        let point_center: Vector2 = point1.scale(point1_s).add(point2.scale(point2_s)).add(
            point3.scale(point3_s),
        ).div(point_sum);
        let d_a: Vector2 = point1.sub(point_center);
        let d_c: Vector2 = point3.sub(point_center);
        let rad: i64 = d_a.len();

        let theta_start: i64 = fx_atan2(d_a.y, d_a.x);
        let mut theta_end: i64 = fx_atan2(d_c.y, d_c.x);
        while theta_end < theta_start
            invariant
                -FX_PI <= theta_start <= FX_PI,
                -FX_PI <= theta_end <= FX_PI + FX_TWO_PI,
            decreases
                    (if theta_end < theta_start {
                        1int
                    } else {
                        0int
                    }),
        {
            theta_end = fx_add(theta_end, FX_TWO_PI);
        }
        let mut dir: i64 = SCALE;
        let mut theta_range: i64 = fx_sub(theta_end, theta_start);
        let chord: Vector2 = point3.sub(point1);
        let ortho_atoc: Vector2 = Vector2::new(chord.y, fx_sub(0, chord.x));
        if ortho_atoc.dot(point2.sub(point1)) < 0 {
            dir = -SCALE;
            theta_range = fx_sub(FX_TWO_PI, theta_range);
        }
        let points: u64 = if fx_mul(200000, rad) <= 10000 {
            2
        } else {
            let slice_angle: i64 = fx_acos(fx_sub(SCALE, fx_div(10000, rad)));
            let denom: i64 = fx_mul(200000, slice_angle);
            let q: i64 = fx_div(theta_range, denom);
            if q <= 100000 {
                2
            } else {
                ((q as u64) + 99999) / 100000
            }
        };
        let mut path: Vec<Vector2> = Vec::new();
        let mut i: u64 = 0;
        while i < points
            invariant
                path@.len() == i,
                0 <= i <= points,
                2 <= points <= 0x2000000000000000u64,
                i >= 1 ==> path@[0] == point1,
                i == points ==> path@[i - 1] == point3,
                point1 == sub_points@[0],
                point3 == sub_points@[2],
            decreases points - i,
        {
            if i == 0 {
                path.push(point1);
            } else if i + 1 == points {
                path.push(point3);
            } else {
                let fraction: i64 = fx_div(fx_of_int(i as i64), fx_of_int((points - 1) as i64));
                let theta: i64 = fx_add(theta_start, fx_mul(dir, fx_mul(fraction, theta_range)));
                path.push(point_center.add(Vector2::new(fx_cos(theta), fx_sin(theta)).scale(rad)));
            }
            i = i + 1;
        }
        path
    }

    /// Sample a Catmull-Rom chain: a fixed number of points per interior
    /// segment, two per sample step.
    pub fn approximate_catmull(sub_points: &Vec<Vector2>) -> (r: Vec<Vector2>)
        requires
            sub_points@.len() >= 1,
        ensures
            r@.len() == (sub_points@.len() - 1) * (2 * CATMULL_DETAIL as int),
    {
        let n: usize = sub_points.len();
        let mut path: Vec<Vector2> = Vec::new();
        let mut i: usize = 0;
        while i < n - 1
            invariant
                0 <= i <= n - 1,
                n == sub_points@.len(),
                n >= 1,
                path@.len() == i * (2 * CATMULL_DETAIL as int),
            decreases n - 1 - i,
        {
            let vec1: Vector2 = if i > 0 {
                sub_points[i - 1]
            } else {
                sub_points[i]
            };
            let vec2: Vector2 = sub_points[i];
            let vec3: Vector2 = if i < n - 1 {
                sub_points[i + 1]
            } else {
                vec2.add(vec2).sub(vec1)
            };
            let vec4: Vector2 = if i < n - 2 {
                sub_points[i + 2]
            } else {
                vec3.add(vec3).sub(vec2)
            };
            let mut c: usize = 0;
            while c < CATMULL_DETAIL
                invariant
                    0 <= c <= CATMULL_DETAIL,
                    path@.len() == i * (2 * CATMULL_DETAIL as int) + c * 2,
                decreases CATMULL_DETAIL - c,
            {
                let t_a: i64 = fx_div(fx_of_int(c as i64), fx_of_int(CATMULL_DETAIL as i64));
                let t_b: i64 = fx_div(fx_of_int((c + 1) as i64), fx_of_int(CATMULL_DETAIL as i64));
                path.push(catmull_eval(vec1, vec2, vec3, vec4, t_a));
                path.push(catmull_eval(vec1, vec2, vec3, vec4, t_b));
                c = c + 1;
            }
            proof {
                assert((i as int + 1) * (2 * CATMULL_DETAIL as int) == (i as int) * (2
                    * CATMULL_DETAIL as int) + 2 * CATMULL_DETAIL as int) by (nonlinear_arith);
            }
            i = i + 1;
        }
        proof {
            assert(path@.len() == (n - 1) * (2 * CATMULL_DETAIL as int));
        }
        path
    }
}

/// One Catmull-Rom basis evaluation at parameter `t`.
fn catmull_eval(v1: Vector2, v2: Vector2, v3: Vector2, v4: Vector2, t: i64) -> (r: Vector2) {
    let t2: i64 = fx_mul(t, t);
    let t3: i64 = fx_mul(t, t2);
    let x: i64 = catmull_coord(v1.x, v2.x, v3.x, v4.x, t, t2, t3);
    let y: i64 = catmull_coord(v1.y, v2.y, v3.y, v4.y, t, t2, t3);
    Vector2::new(x, y)
}

/// One coordinate of the Catmull-Rom basis:
/// `0.5 * (2 b + (-a + c) t + (2 a - 5 b + 4 c - d) t^2 + (-a + 3 b - 3 c + d) t^3)`.
fn catmull_coord(a: i64, b: i64, c: i64, d: i64, t: i64, t2: i64, t3: i64) -> (r: i64) {
    let c0: i64 = fx_mul(200000, b);
    let c1: i64 = fx_sub(c, a);
    let c2: i64 = fx_sub(fx_add(fx_sub(fx_mul(200000, a), fx_mul(500000, b)), fx_mul(400000, c)), d);
    let c3: i64 = fx_add(fx_sub(fx_mul(300000, b), fx_add(a, fx_mul(300000, c))), d);
    let inner: i64 = fx_add(fx_add(fx_add(c0, fx_mul(c1, t)), fx_mul(c2, t2)), fx_mul(c3, t3));
    fx_mul(inner, 50000)
}

} // verus!
