//! The stacking resolver: integer stack heights for overlapping objects.
//!
//! Two index-driven passes over the finished object list. The reverse scan
//! zeroes the height of any later object positionally close to an earlier
//! base within the leniency-scaled time window; the forward-from-end scan
//! assigns the actual heights, chaining circles upward and propagating a
//! negative offset across a slider whose end sits under a circle.

use vstd::prelude::*;

use crate::fx::{fx_add, fx_div, fx_mul, fx_of_int, fx_sub, spec_fx_add, spec_fx_div, spec_fx_mul, spec_fx_sub, spec_fx_of_int};
use crate::parser::beatmap::objects::HitObject;
use crate::util::Vector2;

verus! {

/// Pixel threshold under which two objects count as overlapping.
pub const STACK_DISTANCE: i64 = 300000;

/// What `approach_preempt` returns: the three-branch piecewise-linear
/// time-to-appear, in fixed-point milliseconds, derived from the approach
/// rate.
pub open spec fn spec_approach_preempt(ar: int) -> int {
    if ar > 500000 {
        spec_fx_add(
            spec_fx_of_int(1200),
            spec_fx_div(
                spec_fx_mul(spec_fx_sub(spec_fx_of_int(450), spec_fx_of_int(1200)), spec_fx_sub(ar, 500000)),
                500000,
            ),
        )
    } else if ar < 500000 {
        spec_fx_add(
            spec_fx_of_int(1200),
            spec_fx_div(
                spec_fx_mul(spec_fx_sub(spec_fx_of_int(1200), spec_fx_of_int(1800)), spec_fx_sub(500000, ar)),
                500000,
            ),
        )
    } else {
        spec_fx_of_int(1200)
    }
}

/// Time-to-appear of a circle, in fixed-point milliseconds, from the
/// approach-rate difficulty value.
pub fn approach_preempt(ar: i64) -> (r: i64)
    ensures
        r as int == spec_approach_preempt(ar as int),
{
    if ar > 500000 {
        let hi: i64 = fx_sub(fx_of_int(450), fx_of_int(1200));
        fx_add(fx_of_int(1200), fx_div(fx_mul(hi, fx_sub(ar, 500000)), 500000))
    } else if ar < 500000 {
        let lo: i64 = fx_sub(fx_of_int(1200), fx_of_int(1800));
        fx_add(fx_of_int(1200), fx_div(fx_mul(lo, fx_sub(500000, ar)), 500000))
    } else {
        fx_of_int(1200)
    }
}

fn close(a: Vector2, b: Vector2) -> (r: bool)
    ensures
        r == (crate::fx::spec_fx_hypot(
            spec_fx_sub(b.x as int, a.x as int),
            spec_fx_sub(b.y as int, a.y as int),
        ) < STACK_DISTANCE as int),
{
    b.sub(a).len() < STACK_DISTANCE
}

/// Clamp a wide height value into the `i32` range.
fn clamp_height(v: i64) -> (r: i32)
    ensures
        v as int >= i32::MIN as int && v as int <= i32::MAX as int ==> r as int == v as int,
        v <= 1 ==> r <= 1,
{
    if v > i32::MAX as i64 {
        i32::MAX
    } else if v < i32::MIN as i64 {
        i32::MIN
    } else {
        v as i32
    }
}

/// Every object still carries the parse-time zero stack height.
pub open spec fn spec_zeroed(objs: Seq<HitObject>) -> bool {
    forall|k: int| 0 <= k < objs.len() ==> (#[trigger] objs[k]).stack_height == 0
}

/// No object is typed exactly as a slider.
pub open spec fn spec_sliderless(objs: Seq<HitObject>) -> bool {
    forall|k: int| 0 <= k < objs.len() ==> (#[trigger] objs[k]).hit_type != 2
}

/// Exactly two circles with zero heights, the later one within the pixel
/// threshold of the earlier and inside its leniency-scaled time window.
pub open spec fn spec_stacked_pair(objs: Seq<HitObject>, time_preempt: int, stack_leniency: int) -> bool {
    &&& objs.len() == 2
    &&& objs[0].hit_type == 1
    &&& objs[1].hit_type == 1
    &&& objs[0].stack_height == 0
    &&& objs[1].stack_height == 0
    &&& crate::fx::spec_fx_hypot(
        spec_fx_sub(objs[1].position.x as int, objs[0].position.x as int),
        spec_fx_sub(objs[1].position.y as int, objs[0].position.y as int),
    ) < STACK_DISTANCE as int
    &&& spec_fx_sub(objs[1].start_time as int, objs[0].start_time as int) <= spec_fx_mul(
        time_preempt,
        stack_leniency,
    )
}

/// Compute every object's stack height, without touching the objects.
/// The result is index-parallel to the input. When every input height is
/// still zero: no height ever exceeds one; without slider-typed objects the
/// heights stay in `{0, 1}`; and a lone pair of overlapping circles leaves
/// exactly the earlier one raised. So the heights are always bounded by the
/// object count on such inputs.
pub fn compute_stack_heights(objs: &Vec<HitObject>, time_preempt: i64, stack_leniency: i64) -> (r:
    Vec<i32>)
    ensures
        r@.len() == objs@.len(),
        spec_zeroed(objs@) ==> (forall|k: int| 0 <= k < r@.len() ==> #[trigger] r@[k] <= 1),
        spec_zeroed(objs@) && spec_sliderless(objs@) ==> (forall|k: int|
            0 <= k < r@.len() ==> 0 <= #[trigger] r@[k] <= 1),
        spec_stacked_pair(objs@, time_preempt as int, stack_leniency as int) ==> r@ =~= seq![
            1i32,
            0i32,
        ],
{
    let len: usize = objs.len();
    let mut heights: Vec<i32> = Vec::new();
    let mut t: usize = 0;
    while t < len
        invariant
            0 <= t <= len == objs@.len(),
            heights@.len() == t,
            forall|k: int| 0 <= k < t ==> heights@[k] == objs@[k].stack_height,
        decreases len - t,
    {
        heights.push(objs[t].stack_height);
        t = t + 1;
    }
    if len == 0 {
        return heights;
    }
    let stack_threshold: i64 = fx_mul(time_preempt, stack_leniency);
    let ghost pre = time_preempt as int;
    let ghost len_ = stack_leniency as int;
    // reverse scan: zero the later object of any close pair in the window
    let mut i: usize = len;
    while i > 0
        invariant
            0 <= i <= len == objs@.len(),
            heights@.len() == len,
            spec_zeroed(objs@) ==> (forall|k: int| 0 <= k < len ==> #[trigger] heights@[k] <= 1),
            spec_zeroed(objs@) && spec_sliderless(objs@) ==> (forall|k: int|
                0 <= k < len ==> 0 <= #[trigger] heights@[k] <= 1),
            spec_stacked_pair(objs@, pre, len_) ==> heights@[0] == 0 && heights@[1] == 0,
        decreases i,
    {
        i = i - 1;
        let mut j: usize = i + 1;
        let mut stop: bool = false;
        while j < len && !stop
            invariant
                i < j <= len == objs@.len(),
                heights@.len() == len,
                spec_zeroed(objs@) ==> (forall|k: int|
                    0 <= k < len ==> #[trigger] heights@[k] <= 1),
                spec_zeroed(objs@) && spec_sliderless(objs@) ==> (forall|k: int|
                    0 <= k < len ==> 0 <= #[trigger] heights@[k] <= 1),
                spec_stacked_pair(objs@, pre, len_) ==> heights@[0] == 0 && heights@[1] == 0,
            decreases len - j,
        {
            let base: &HitObject = &objs[i];
            let jo: &HitObject = &objs[j];
            if base.hit_type == 8 || jo.hit_type == 8 {
                stop = true;
            } else {
                let base_end: i64 = if base.hit_type == 2 {
                    base.end_time
                } else {
                    base.start_time
                };
                if fx_sub(jo.start_time, base_end) > stack_threshold {
                    stop = true;
                } else {
                    let end_close: bool = if base.hit_type == 2 {
                        close(base.end_position, jo.position)
                    } else {
                        false
                    };
                    if close(base.position, jo.position) || end_close {
                        heights.set(j, 0);
                    }
                }
            }
            j = j + 1;
        }
    }
    // forward-from-end scan: assign the heights
    let mut i2: usize = len - 1;
    while i2 > 0
        invariant
            0 <= i2 < len == objs@.len(),
            heights@.len() == len,
            stack_threshold as int == spec_fx_mul(pre, len_),
            pre == time_preempt as int,
            len_ == stack_leniency as int,
            spec_zeroed(objs@) ==> (forall|k: int| 0 <= k < len ==> #[trigger] heights@[k] <= 1),
            spec_zeroed(objs@) && spec_sliderless(objs@) ==> (forall|k: int|
                0 <= k < len ==> 0 <= #[trigger] heights@[k] <= 1),
            spec_stacked_pair(objs@, pre, len_) ==> ((i2 == 1 && heights@[0] == 0 && heights@[1]
                == 0) || (i2 == 0 && heights@[0] == 1 && heights@[1] == 0)),
        decreases i2,
    {
        if heights[i2] != 0 || objs[i2].hit_type == 2 {
            i2 = i2 - 1;
            continue ;
        }
        if objs[i2].hit_type == 1 {
            let mut n: usize = i2;
            let mut done: bool = false;
            while n > 0 && !done
                invariant
                    0 <= n <= i2 < len == objs@.len(),
                    heights@.len() == len,
                    stack_threshold as int == spec_fx_mul(pre, len_),
                    pre == time_preempt as int,
                    len_ == stack_leniency as int,
                    !done ==> heights@[i2 as int] == 0,
                    spec_zeroed(objs@) ==> (forall|k: int|
                        0 <= k < len ==> #[trigger] heights@[k] <= 1),
                    spec_zeroed(objs@) && spec_sliderless(objs@) ==> (forall|k: int|
                        0 <= k < len ==> 0 <= #[trigger] heights@[k] <= 1),
                    spec_stacked_pair(objs@, pre, len_) ==> i2 == 1 && ((n == 1 && !done
                        && heights@[0] == 0 && heights@[1] == 0) || (n == 0 && heights@[0] == 1
                        && heights@[1] == 0)),
                decreases n,
            {
                n = n - 1;
                let no: &HitObject = &objs[n];
                if no.hit_type == 8 {
                    continue ;
                }
                let n_end: i64 = if no.hit_type == 1 {
                    no.start_time
                } else {
                    no.end_time
                };
                if fx_sub(objs[i2].start_time, n_end) > stack_threshold {
                    done = true;
                    continue ;
                }
                let endpos_close: bool = if no.hit_type == 2 {
                    close(no.end_position, objs[i2].position)
                } else {
                    false
                };
                if endpos_close {
                    // chain through the slider: push the range down by the
                    // height difference
                    let offset: i64 = heights[i2] as i64 - heights[n] as i64 + 1;
                    proof {
                        if spec_zeroed(objs@) {
                            assert(offset >= 0);
                        }
                        if spec_stacked_pair(objs@, pre, len_) {
                            assert(objs@[n as int].hit_type == 1);
                            assert(false);
                        }
                    }
                    let mut j: usize = n + 1;
                    while j <= i2
                        invariant
                            n < j <= i2 + 1,
                            -4294967296 <= offset <= 4294967296,
                            i2 < len == objs@.len(),
                            heights@.len() == len,
                            objs@[n as int].hit_type == 2,
                            spec_zeroed(objs@) ==> offset >= 0,
                            spec_zeroed(objs@) ==> (forall|k: int|
                                0 <= k < len ==> #[trigger] heights@[k] <= 1),
                            spec_zeroed(objs@) && spec_sliderless(objs@) ==> (forall|k: int|
                                0 <= k < len ==> 0 <= #[trigger] heights@[k] <= 1),
                        decreases i2 + 1 - j,
                    {
                        proof {
                            if spec_zeroed(objs@) && spec_sliderless(objs@) {
                                assert(objs@[n as int].hit_type != 2);
                            }
                        }
                        if close(objs[n].end_position, objs[j].position) {
                            let lowered: i64 = heights[j] as i64 - offset;
                            let v: i32 = clamp_height(lowered);
                            heights.set(j, v);
                        }
                        j = j + 1;
                    }
                    done = true;
                } else {
                    if close(no.position, objs[i2].position) {
                        let raised: i64 = heights[i2] as i64 + 1;
                        heights.set(n, clamp_height(raised));
                    }
                }
            }
        } else if objs[i2].hit_type == 2 {
            let mut n: usize = i2;
            let mut done: bool = false;
            while n > 0 && !done
                invariant
                    0 <= n <= i2 < len == objs@.len(),
                    heights@.len() == len,
                    stack_threshold as int == spec_fx_mul(pre, len_),
                    !done ==> heights@[i2 as int] == 0,
                    objs@[i2 as int].hit_type == 2,
                    spec_zeroed(objs@) ==> (forall|k: int|
                        0 <= k < len ==> #[trigger] heights@[k] <= 1),
                    spec_zeroed(objs@) && spec_sliderless(objs@) ==> (forall|k: int|
                        0 <= k < len ==> 0 <= #[trigger] heights@[k] <= 1),
                    spec_stacked_pair(objs@, pre, len_) ==> false,
                decreases n,
            {
                n = n - 1;
                let no: &HitObject = &objs[n];
                if no.hit_type == 8 {
                    continue ;
                }
                if fx_sub(objs[i2].start_time, no.start_time) > stack_threshold {
                    done = true;
                    continue ;
                }
                let n_endpos: Vector2 = if no.hit_type == 1 {
                    no.position
                } else {
                    no.end_position
                };
                if close(n_endpos, objs[i2].position) {
                    let raised: i64 = heights[i2] as i64 + 1;
                    heights.set(n, clamp_height(raised));
                }
            }
        }
        i2 = i2 - 1;
    }
    heights
}

} // verus!
