//! Small arithmetic helpers shared by the aggregation and indicator code.

use vstd::prelude::*;

verus! {

/// Largest magnitude a series value may carry.  Raw prices are admitted up
/// to this bound and every derived ratio saturates at it, which keeps all
/// intermediate arithmetic inside the machine integers.
pub const VAL_CAP: i64 = 4398046511104;

/// Largest admissible rolling-window length or smoothing span.
pub const WINDOW_CAP: usize = 1048576;

/// Fixed-point scale used by ratio-valued results (log-normalised prices,
/// per-bar returns): one unit of input maps to `RATIO_SCALE` units of output.
pub const RATIO_SCALE: i64 = 1000000;

/// Every element of `s` lies in `[-b, b]`.
pub open spec fn bounded(s: Seq<i64>, b: int) -> bool {
    forall|i: int| 0 <= i < s.len() ==> -b <= #[trigger] s[i] <= b
}

/// The value saturated into `[-VAL_CAP, VAL_CAP]`: the documented policy
/// for ratio-valued results that would leave the admissible value range.
pub open spec fn clamp64(v: int) -> i64 {
    if v > VAL_CAP { VAL_CAP } else if v < -VAL_CAP { (-VAL_CAP) as i64 } else { v as i64 }
}

/// Executable form of `clamp64` on a wide intermediate.
pub fn clamp_wide(v: i128) -> (r: i64)
    ensures
        r == clamp64(v as int),
{
    if v > VAL_CAP as i128 {
        VAL_CAP
    } else if v < -(VAL_CAP as i128) {
        -VAL_CAP
    } else {
        v as i64
    }
}

/// The value saturated into the `i64` range.
pub open spec fn sat64(v: int) -> i64 {
    if v > i64::MAX { i64::MAX } else if v < i64::MIN { i64::MIN } else { v as i64 }
}

/// Executable form of `sat64` on a wide intermediate.
pub fn sat_wide(v: i128) -> (r: i64)
    ensures
        r == sat64(v as int),
{
    if v > i64::MAX as i128 {
        i64::MAX
    } else if v < i64::MIN as i128 {
        i64::MIN
    } else {
        v as i64
    }
}

/// A table of columns as a sequence of sequences.
pub open spec fn vv_view(v: Vec<Vec<i64>>) -> Seq<Seq<i64>> {
    Seq::new(v@.len(), |i: int| v@[i]@)
}

/// Copies one column.
pub fn copy_col(v: &Vec<i64>) -> (r: Vec<i64>)
    ensures
        r@ == v@,
{
    let n = v.len();
    let mut r: Vec<i64> = Vec::with_capacity(n);
    let mut i: usize = 0;
    while i < n
        invariant
            n == v@.len(),
            i <= n,
            r@ =~= v@.take(i as int),
        decreases n - i,
    {
        r.push(v[i]);
        proof {
            assert(r@ =~= v@.take(i as int + 1));
        }
        i = i + 1;
    }
    proof {
        assert(r@ =~= v@);
    }
    r
}

/// Copies a table of columns.
pub fn copy_vv(v: &Vec<Vec<i64>>) -> (r: Vec<Vec<i64>>)
    ensures
        vv_view(r) == vv_view(*v),
{
    let n = v.len();
    let mut r: Vec<Vec<i64>> = Vec::with_capacity(n);
    let mut i: usize = 0;
    while i < n
        invariant
            n == v@.len(),
            i <= n,
            r@.len() == i,
            forall|j: int| 0 <= j < i ==> #[trigger] r@[j]@ == v@[j]@,
        decreases n - i,
    {
        r.push(copy_col(&v[i]));
        i = i + 1;
    }
    proof {
        assert(vv_view(r) =~= vv_view(*v));
    }
    r
}

/// Floor division, written so that the executable result coincides with the
/// mathematical `/` of specifications (Euclidean division by a positive
/// divisor is floor division).
pub fn div_floor(n: i64, d: i64) -> (q: i64)
    requires
        d > 0,
        i64::MIN < n,
    ensures
        q == n as int / d as int,
{
    if n >= 0 {
        n / d
    } else {
        let m: i64 = -n;
        let down: i64 = m / d;
        if m % d == 0 {
            proof {
                vstd::arithmetic::div_mod::lemma_fundamental_div_mod(m as int, d as int);
                assert(-(m as int) == (d as int) * (-(down as int)) + 0) by (nonlinear_arith)
                    requires m as int == (d as int) * (down as int) + 0;
                vstd::arithmetic::div_mod::lemma_fundamental_div_mod_converse(
                    -(m as int), d as int, -(down as int), 0);
            }
            -down
        } else {
            proof {
                lemma_neg_div(m as int, d as int);
            }
            -down - 1
        }
    }
}

/// For `m > 0`, `d > 0` with `d` not dividing `m`:
/// `(-m) / d == -(m / d) - 1` under Euclidean division.
proof fn lemma_neg_div(m: int, d: int)
    requires
        m > 0,
        d > 0,
        m % d != 0,
    ensures
        (-m) / d == -(m / d) - 1,
{
    let q = m / d;
    let r = m % d;
    vstd::arithmetic::div_mod::lemma_fundamental_div_mod(m, d);
    vstd::arithmetic::div_mod::lemma_fundamental_div_mod(-m, d);
    let q2 = (-m) / d;
    let r2 = (-m) % d;
    assert(d * q2 + r2 == -(d * q + r));
    assert(d * (q2 + q + 1) == d - r - r2) by {
        vstd::arithmetic::mul::lemma_mul_is_distributive_add(d, q2, q + 1);
        vstd::arithmetic::mul::lemma_mul_is_distributive_add(d, q, 1);
    }
    assert(-d < d - r - r2 < d);
    assert(q2 + q + 1 == 0) by {
        if q2 + q + 1 >= 1 {
            vstd::arithmetic::mul::lemma_mul_inequality(1, q2 + q + 1, d);
        }
        if q2 + q + 1 <= -1 {
            vstd::arithmetic::mul::lemma_mul_inequality(q2 + q + 1, -1, d);
        }
    }
}

/// Floor division on wide intermediates, again agreeing with the
/// mathematical `/` of specifications.
pub fn div_floor_wide(n: i128, d: i128) -> (q: i128)
    requires
        d > 0,
        i128::MIN < n,
    ensures
        q == n as int / d as int,
{
    if n >= 0 {
        n / d
    } else {
        let m: i128 = -n;
        let down: i128 = m / d;
        if m % d == 0 {
            proof {
                vstd::arithmetic::div_mod::lemma_fundamental_div_mod(m as int, d as int);
                assert(-(m as int) == (d as int) * (-(down as int)) + 0) by (nonlinear_arith)
                    requires m as int == (d as int) * (down as int) + 0;
                vstd::arithmetic::div_mod::lemma_fundamental_div_mod_converse(
                    -(m as int), d as int, -(down as int), 0);
            }
            -down
        } else {
            proof {
                lemma_neg_div(m as int, d as int);
            }
            -down - 1
        }
    }
}

/// For a positive divisor, a numerator within `d * cap` of zero has a
/// quotient within `cap` of zero.
pub proof fn lemma_div_bound(num: int, d: int, cap: int)
    requires
        d > 0,
        cap >= 0,
        -(d * cap) <= num <= d * cap,
    ensures
        -cap <= num / d <= cap,
{
    vstd::arithmetic::div_mod::lemma_div_is_ordered(num, d * cap, d);
    vstd::arithmetic::div_mod::lemma_div_is_ordered(-(d * cap), num, d);
    vstd::arithmetic::div_mod::lemma_div_multiples_vanish(cap, d);
    assert(d * (-cap) == -(d * cap)) by (nonlinear_arith);
    vstd::arithmetic::div_mod::lemma_div_multiples_vanish(-cap, d);
}

/// Mathematical description of `sat_add_nonneg`.
pub open spec fn sat_add64(a: i64, b: i64) -> i64
    recommends
        a >= 0,
        b >= 0,
{
    if a + b > i64::MAX { i64::MAX } else { (a + b) as i64 }
}

/// Saturating sum of two non-negative accumulators.
pub fn sat_add_nonneg(a: i64, b: i64) -> (r: i64)
    requires
        a >= 0,
        b >= 0,
    ensures
        r == sat_add64(a, b),
{
    if a > i64::MAX - b {
        i64::MAX
    } else {
        a + b
    }
}

/// Saturating sum of two counters.
pub open spec fn sat_add_u64(a: u64, b: u64) -> u64 {
    if a + b > u64::MAX { u64::MAX } else { (a + b) as u64 }
}

pub fn sat_add_count(a: u64, b: u64) -> (r: u64)
    ensures
        r == sat_add_u64(a, b),
{
    if a > u64::MAX - b {
        u64::MAX
    } else {
        a + b
    }
}

pub open spec fn max64(a: i64, b: i64) -> i64 {
    if a >= b { a } else { b }
}

/// The larger of two values.
pub fn max_i64(a: i64, b: i64) -> (r: i64)
    ensures
        r == max64(a, b),
{
    if a >= b { a } else { b }
}

pub open spec fn min64(a: i64, b: i64) -> i64 {
    if a <= b { a } else { b }
}

/// The smaller of two values.
pub fn min_i64(a: i64, b: i64) -> (r: i64)
    ensures
        r == min64(a, b),
{
    if a <= b { a } else { b }
}

} // verus!
