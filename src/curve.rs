use vstd::arithmetic::div_mod::{lemma_div_by_multiple, lemma_div_is_ordered, lemma_div_pos_is_pos};
use vstd::arithmetic::mul::{lemma_mul_inequality, lemma_mul_nonnegative};
use vstd::prelude::*;

use crate::config::{steps_ordered, Step};

verus! {

/// Index of the first step, from `k` on, whose temperature is at least `t`;
/// `steps.len()` when there is none.
pub open spec fn first_at_or_above(steps: Seq<Step>, t: int, k: int) -> int
    decreases steps.len() - k,
{
    if k < 0 || k >= steps.len() || t <= steps[k].temp {
        k
    } else {
        first_at_or_above(steps, t, k + 1)
    }
}

/// The straight line through `below` and `above`, taken at `t` and
/// truncated toward zero.
pub open spec fn lerp(below: Step, above: Step, t: int) -> int {
    (t - below.temp) * (above.dcycle - below.dcycle) / (above.temp - below.temp) + below.dcycle
}

/// The duty cycle that a curve asks for at temperature `t`: the first step's
/// below the curve, the last step's above it, the line between the two
/// neighbouring steps inside it, and 100 for a curve without steps.
pub open spec fn curve(steps: Seq<Step>, t: int) -> int {
    let k = first_at_or_above(steps, t, 0);
    if steps.len() == 0 {
        100
    } else if k >= steps.len() {
        steps.last().dcycle as int
    } else if k == 0 {
        steps[0].dcycle as int
    } else {
        lerp(steps[k - 1], steps[k], t)
    }
}

proof fn lemma_first_at_or_above(steps: Seq<Step>, t: int, k: int)
    requires
        0 <= k <= steps.len(),
        forall|j: int| 0 <= j < k ==> steps[j].temp < t,
    ensures
        k <= first_at_or_above(steps, t, k) <= steps.len(),
        forall|j: int| 0 <= j < first_at_or_above(steps, t, k) ==> steps[j].temp < t,
        first_at_or_above(steps, t, k) < steps.len() ==> t <= steps[first_at_or_above(
            steps,
            t,
            k,
        )].temp,
    decreases steps.len() - k,
{
    if k < steps.len() && t > steps[k].temp {
        lemma_first_at_or_above(steps, t, k + 1);
    }
}

proof fn lemma_first_is(steps: Seq<Step>, t: int, k: int, m: int)
    requires
        0 <= k <= m <= steps.len(),
        forall|j: int| 0 <= j < m ==> steps[j].temp < t,
        m < steps.len() ==> t <= steps[m].temp,
    ensures
        first_at_or_above(steps, t, k) == m,
    decreases m - k,
{
    if k < m {
        lemma_first_is(steps, t, k + 1, m);
    }
}

proof fn lemma_lerp_bounds(below: Step, above: Step, t: int)
    requires
        below.temp < t <= above.temp,
        below.dcycle <= above.dcycle,
    ensures
        below.dcycle <= lerp(below, above, t) <= above.dcycle,
{
    let x = t - below.temp;
    let w = above.temp - below.temp;
    let d = above.dcycle - below.dcycle;
    lemma_mul_nonnegative(x, d);
    lemma_div_pos_is_pos(x * d, w);
    lemma_mul_inequality(x, w, d);
    lemma_div_is_ordered(x * d, w * d, w);
    lemma_div_by_multiple(d, w);
    assert(w * d == d * w) by (nonlinear_arith);
}

proof fn lemma_lerp_monotonic(below: Step, above: Step, t1: int, t2: int)
    requires
        below.temp < t1 <= t2 <= above.temp,
        below.dcycle <= above.dcycle,
    ensures
        lerp(below, above, t1) <= lerp(below, above, t2),
{
    let w = above.temp - below.temp;
    let d = above.dcycle - below.dcycle;
    lemma_mul_inequality(t1 - below.temp, t2 - below.temp, d);
    lemma_div_is_ordered((t1 - below.temp) * d, (t2 - below.temp) * d, w);
}

proof fn lemma_curve_between(steps: Seq<Step>, t: int)
    requires
        steps_ordered(steps),
        steps.len() > 0,
    ensures
        ({
            let k = first_at_or_above(steps, t, 0);
            &&& 0 <= k <= steps.len()
            &&& k < steps.len() ==> curve(steps, t) <= steps[k].dcycle
            &&& k > 0 ==> steps[k - 1].dcycle <= curve(steps, t)
        }),
{
    lemma_first_at_or_above(steps, t, 0);
    let k = first_at_or_above(steps, t, 0);
    if 0 < k < steps.len() {
        lemma_lerp_bounds(steps[k - 1], steps[k], t);
    }
}

/// On an ordered curve, a hotter temperature never asks for a lower duty
/// cycle.
pub proof fn lemma_curve_monotonic(steps: Seq<Step>, t1: int, t2: int)
    requires
        steps_ordered(steps),
        t1 <= t2,
    ensures
        curve(steps, t1) <= curve(steps, t2),
{
    if steps.len() > 0 {
        lemma_first_at_or_above(steps, t1, 0);
        lemma_first_at_or_above(steps, t2, 0);
        lemma_curve_between(steps, t1);
        lemma_curve_between(steps, t2);
        let k1 = first_at_or_above(steps, t1, 0);
        let k2 = first_at_or_above(steps, t2, 0);
        if k2 < k1 {
            assert(steps[k2].temp < t1);
        }
        if k1 == k2 {
            if 0 < k1 < steps.len() {
                lemma_lerp_monotonic(steps[k1 - 1], steps[k1], t1, t2);
            }
        } else {
            assert(k1 < k2);
            if k1 < k2 - 1 {
                assert(steps[k1].dcycle <= steps[k2 - 1].dcycle);
            }
        }
    }
}

/// The duty cycle that the curve `steps` asks for at temperature `temp`.
pub fn duty_cycle_for(steps: &Vec<Step>, temp: u8) -> (r: u8)
    requires
        steps_ordered(steps@),
    ensures
        r == curve(steps@, temp as int),
{
    let n = steps.len();
    let mut lo: usize = 0;
    let mut hi: usize = n;
    while lo < hi
        invariant
            n == steps@.len(),
            steps_ordered(steps@),
            0 <= lo <= hi <= n,
            forall|j: int| 0 <= j < lo ==> steps@[j].temp < temp,
            forall|j: int| hi <= j < n ==> steps@[j].temp >= temp,
        decreases hi - lo,
    {
        let mid = lo + (hi - lo) / 2;
        if steps[mid].temp < temp {
            assert forall|j: int| 0 <= j < mid + 1 implies steps@[j].temp < temp by {
                if j < mid {
                    assert(steps@[j].temp < steps@[mid as int].temp);
                }
            }
            lo = mid + 1;
        } else {
            assert forall|j: int| mid <= j < n implies steps@[j].temp >= temp by {
                if j > mid {
                    assert(steps@[mid as int].temp < steps@[j].temp);
                }
            }
            hi = mid;
        }
    }
    proof {
        lemma_first_is(steps@, temp as int, 0, lo as int);
    }
    if n == 0 {
        100
    } else if lo == n {
        steps[n - 1].dcycle
    } else if lo == 0 {
        steps[0].dcycle
    } else {
        let below = steps[lo - 1];
        let above = steps[lo];
        proof {
            assert(below.temp < above.temp && below.dcycle <= above.dcycle);
            lemma_lerp_bounds(below, above, temp as int);
            assert((temp - below.temp) * (above.dcycle - below.dcycle) <= 255 * 255)
                by (nonlinear_arith)
                requires
                    0 <= temp - below.temp <= 255,
                    0 <= above.dcycle - below.dcycle <= 255,
            ;
        }
        let num = ((temp - below.temp) as u32) * ((above.dcycle - below.dcycle) as u32);
        let value = num / ((above.temp - below.temp) as u32) + below.dcycle as u32;
        value as u8
    }
}

} // verus!
