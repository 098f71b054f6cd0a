//! The indicator descriptors and their numeric kernels.  A descriptor is
//! a closed tree: two requests name the same cache entry exactly when
//! their descriptors are structurally equal.  Every kernel is a pure
//! function from input columns to output columns.
//!
//! Numeric policy, uniform across kernels: division rounds towards minus
//! infinity; a ratio with a non-positive denominator is 0; ratio results
//! saturate at the admissible value bound; window sums saturate at the
//! `i64` range.

use vstd::prelude::*;
use crate::roll::{
    ema, ema64, ema_rec, roll_max, roll_max64, roll_min, roll_min64,
    roll_sum, roll_sum64, roll_mean, roll_mean64, seq_max_of, seq_min_of,
    window_at, EMA_CAP,
};
use crate::util::{
    bounded, clamp64, clamp_wide, div_floor_wide, sat64, sat_wide, VAL_CAP, WINDOW_CAP,
};

verus! {

/// Which bar column an indicator reads.
#[derive(Clone, Copy, PartialEq, Eq, Structural, Debug)]
pub enum KlineType {
    Time,
    Open,
    High,
    Low,
    Close,
    Volume,
}

/// A rolling-window reduction.
#[derive(Clone, Copy, PartialEq, Eq, Structural, Debug)]
pub enum RollFunc {
    Max,
    Min,
    Mean,
    Sum,
}

/// An indicator descriptor: the closed set of derived series the library
/// computes.  `RollTa` applies a rolling reduction to another indicator's
/// output, recursing through the dataset dispatcher so the inner
/// indicator's own cache entry is reused.
#[derive(Debug)]
pub enum Ta {
    Kline(KlineType),
    Rsi(usize),
    Tr,
    Atr(usize),
    Diff(usize, usize),
    Macd(usize, usize, usize),
    Kta(usize, usize, usize),
    Dta(usize, usize, usize),
    Jta(usize, usize, usize),
    EffRatio(usize, usize),
    Spread(usize),
    Rankma(usize, usize),
    KDayRatio(usize),
    Max(KlineType, usize),
    Min(KlineType, usize),
    RollTa(Box<Ta>, RollFunc, usize),
}

/// Structural equality of two indicator descriptors.
fn eq_ta(a: &Ta, b: &Ta) -> (r: bool)
    ensures
        r == (*a == *b),
    decreases *a,
{
    match (a, b) {
        (Ta::Kline(x), Ta::Kline(y)) => x == y,
        (Ta::Rsi(x), Ta::Rsi(y)) => x == y,
        (Ta::Tr, Ta::Tr) => true,
        (Ta::Atr(x), Ta::Atr(y)) => x == y,
        (Ta::Diff(x0, x1), Ta::Diff(y0, y1)) => x0 == y0 && x1 == y1,
        (Ta::Macd(x0, x1, x2), Ta::Macd(y0, y1, y2)) => x0 == y0 && x1 == y1 && x2 == y2,
        (Ta::Kta(x0, x1, x2), Ta::Kta(y0, y1, y2)) => x0 == y0 && x1 == y1 && x2 == y2,
        (Ta::Dta(x0, x1, x2), Ta::Dta(y0, y1, y2)) => x0 == y0 && x1 == y1 && x2 == y2,
        (Ta::Jta(x0, x1, x2), Ta::Jta(y0, y1, y2)) => x0 == y0 && x1 == y1 && x2 == y2,
        (Ta::EffRatio(x0, x1), Ta::EffRatio(y0, y1)) => x0 == y0 && x1 == y1,
        (Ta::Spread(x), Ta::Spread(y)) => x == y,
        (Ta::Rankma(x0, x1), Ta::Rankma(y0, y1)) => x0 == y0 && x1 == y1,
        (Ta::KDayRatio(x), Ta::KDayRatio(y)) => x == y,
        (Ta::Max(xk, xw), Ta::Max(yk, yw)) => xk == yk && xw == yw,
        (Ta::Min(xk, xw), Ta::Min(yk, yw)) => xk == yk && xw == yw,
        (Ta::RollTa(xt, xf, xw), Ta::RollTa(yt, yf, yw)) => {
            eq_ta(xt, yt) && xf == yf && xw == yw
        },
        _ => false,
    }
}

impl PartialEq for Ta {
    fn eq(&self, other: &Ta) -> (r: bool) {
        eq_ta(self, other)
    }
}

impl vstd::std_specs::cmp::PartialEqSpecImpl for Ta {
    open spec fn obeys_eq_spec() -> bool {
        true
    }

    open spec fn eq_spec(&self, other: &Ta) -> bool {
        *self == *other
    }
}

impl Eq for Ta {}

/// Structural deep copy.
fn clone_ta(t: &Ta) -> (r: Ta)
    ensures
        r == *t,
    decreases *t,
{
    match t {
        Ta::Kline(k) => Ta::Kline(*k),
        Ta::Rsi(n) => Ta::Rsi(*n),
        Ta::Tr => Ta::Tr,
        Ta::Atr(n) => Ta::Atr(*n),
        Ta::Diff(a, b) => Ta::Diff(*a, *b),
        Ta::Macd(a, b, c) => Ta::Macd(*a, *b, *c),
        Ta::Kta(a, b, c) => Ta::Kta(*a, *b, *c),
        Ta::Dta(a, b, c) => Ta::Dta(*a, *b, *c),
        Ta::Jta(a, b, c) => Ta::Jta(*a, *b, *c),
        Ta::EffRatio(a, b) => Ta::EffRatio(*a, *b),
        Ta::Spread(a) => Ta::Spread(*a),
        Ta::Rankma(a, b) => Ta::Rankma(*a, *b),
        Ta::KDayRatio(a) => Ta::KDayRatio(*a),
        Ta::Max(k, w) => Ta::Max(*k, *w),
        Ta::Min(k, w) => Ta::Min(*k, *w),
        Ta::RollTa(inner, f, w) => Ta::RollTa(Box::new(clone_ta(inner)), *f, *w),
    }
}

impl Clone for Ta {
    /// A clone is structurally equal to the original.
    fn clone(&self) -> (r: Ta)
        ensures
            r == *self,
    {
        clone_ta(self)
    }
}

/// Nesting depth of a descriptor, the measure the recursive evaluator
/// decreases: every indicator an indicator reads through the dispatcher
/// sits strictly lower.
pub open spec fn ta_height(t: Ta) -> nat
    decreases t,
{
    match t {
        Ta::Atr(_) => 1,
        Ta::Macd(_, _, _) => 1,
        Ta::Dta(_, _, _) => 1,
        Ta::Jta(_, _, _) => 2,
        Ta::RollTa(inner, _, _) => ta_height(*inner) + 1,
        _ => 0,
    }
}

/// Configuration validity: every window and span is non-trivial and in
/// range.
pub open spec fn ta_wf(t: Ta) -> bool
    decreases t,
{
    match t {
        Ta::Kline(_) => true,
        Ta::Rsi(n) => 1 <= n <= WINDOW_CAP,
        Ta::Tr => true,
        Ta::Atr(n) => 1 <= n <= WINDOW_CAP,
        Ta::Diff(a, b) => 1 <= a <= WINDOW_CAP && 1 <= b <= WINDOW_CAP,
        Ta::Macd(a, b, c) => 1 <= a <= WINDOW_CAP && 1 <= b <= WINDOW_CAP && 1 <= c <= WINDOW_CAP,
        Ta::Kta(a, b, _) => 1 <= a <= WINDOW_CAP && 1 <= b <= WINDOW_CAP,
        Ta::Dta(a, b, c) => 1 <= a <= WINDOW_CAP && 1 <= b <= WINDOW_CAP && 1 <= c <= WINDOW_CAP,
        Ta::Jta(a, b, c) => 1 <= a <= WINDOW_CAP && 1 <= b <= WINDOW_CAP && 1 <= c <= WINDOW_CAP,
        Ta::EffRatio(a, b) => 1 <= b <= WINDOW_CAP,
        Ta::Spread(a) => 1 <= a <= WINDOW_CAP,
        Ta::Rankma(a, b) => 1 <= a <= WINDOW_CAP && 1 <= b <= WINDOW_CAP,
        Ta::KDayRatio(a) => 1 <= a <= WINDOW_CAP,
        Ta::Max(_, w) => 1 <= w <= WINDOW_CAP,
        Ta::Min(_, w) => 1 <= w <= WINDOW_CAP,
        Ta::RollTa(inner, _, w) => ta_wf(*inner) && 1 <= w <= WINDOW_CAP,
    }
}

impl Ta {
    /// Checks configuration validity.
    pub fn is_wf(&self) -> (r: bool)
        ensures
            r == ta_wf(*self),
        decreases *self,
    {
        match self {
            Ta::Kline(_) => true,
            Ta::Rsi(n) => 1 <= *n && *n <= WINDOW_CAP,
            Ta::Tr => true,
            Ta::Atr(n) => 1 <= *n && *n <= WINDOW_CAP,
            Ta::Diff(a, b) => 1 <= *a && *a <= WINDOW_CAP && 1 <= *b && *b <= WINDOW_CAP,
            Ta::Macd(a, b, c) => 1 <= *a && *a <= WINDOW_CAP && 1 <= *b && *b <= WINDOW_CAP
                && 1 <= *c && *c <= WINDOW_CAP,
            Ta::Kta(a, b, _) => 1 <= *a && *a <= WINDOW_CAP && 1 <= *b && *b <= WINDOW_CAP,
            Ta::Dta(a, b, c) => 1 <= *a && *a <= WINDOW_CAP && 1 <= *b && *b <= WINDOW_CAP
                && 1 <= *c && *c <= WINDOW_CAP,
            Ta::Jta(a, b, c) => 1 <= *a && *a <= WINDOW_CAP && 1 <= *b && *b <= WINDOW_CAP
                && 1 <= *c && *c <= WINDOW_CAP,
            Ta::EffRatio(_, b) => 1 <= *b && *b <= WINDOW_CAP,
            Ta::Spread(a) => 1 <= *a && *a <= WINDOW_CAP,
            Ta::Rankma(a, b) => 1 <= *a && *a <= WINDOW_CAP && 1 <= *b && *b <= WINDOW_CAP,
            Ta::KDayRatio(a) => 1 <= *a && *a <= WINDOW_CAP,
            Ta::Max(_, w) => 1 <= *w && *w <= WINDOW_CAP,
            Ta::Min(_, w) => 1 <= *w && *w <= WINDOW_CAP,
            Ta::RollTa(inner, _, w) => inner.is_wf() && 1 <= *w && *w <= WINDOW_CAP,
        }
    }
}

/// Bar-over-bar change at `i`, the first element comparing with itself.
pub open spec fn delta_at(c: Seq<i64>, i: int) -> int {
    c[i] - (if i == 0 { c[i] } else { c[i - 1] })
}

/// The positive part of the bar-over-bar changes.
pub open spec fn gains64(c: Seq<i64>) -> Seq<i64> {
    Seq::new(c.len(), |i: int| if delta_at(c, i) > 0 { sat64(delta_at(c, i)) } else { 0i64 })
}

/// The negative part of the bar-over-bar changes, as magnitudes.
pub open spec fn losses64(c: Seq<i64>) -> Seq<i64> {
    Seq::new(c.len(), |i: int| if delta_at(c, i) < 0 { sat64(-delta_at(c, i)) } else { 0i64 })
}

/// A ratio of one hundred times `num` over `den`, zero when the
/// denominator is not positive, saturated at the value bound.
pub open spec fn ratio100(num: int, den: int) -> i64 {
    if den <= 0 {
        0i64
    } else {
        clamp64(100 * num / den)
    }
}

/// The relative strength index at `i`: gains and losses smoothed over the
/// span, then the smoothed gain as a share of total smoothed movement.
pub open spec fn rsi_at(c: Seq<i64>, n: int, i: int) -> i64 {
    let lg = ema_rec(gains64(c), n, i);
    let ls = ema_rec(losses64(c), n, i);
    ratio100(lg, lg + ls)
}

/// The relative strength index series.
pub open spec fn rsi64(c: Seq<i64>, n: int) -> Seq<i64> {
    Seq::new(c.len(), |i: int| rsi_at(c, n, i))
}

/// `|a - b|`, saturated into `i64`.
pub open spec fn abs_diff64(a: i64, b: i64) -> i64 {
    if a >= b { sat64(a - b) } else { sat64(b - a) }
}

/// The true range at `i`: the largest of the high-to-close, low-to-lagged-
/// close and high-to-low distances.
pub open spec fn tr_at(h: Seq<i64>, l: Seq<i64>, c: Seq<i64>, i: int) -> i64 {
    let hc = abs_diff64(h[i], c[i]);
    let cl = abs_diff64(l[i], if i == 0 { c[0] } else { c[i - 1] });
    let hl = abs_diff64(h[i], l[i]);
    crate::util::max64(hc, crate::util::max64(cl, hl))
}

/// The true range series.
pub open spec fn tr64(h: Seq<i64>, l: Seq<i64>, c: Seq<i64>) -> Seq<i64> {
    Seq::new(h.len(), |i: int| tr_at(h, l, c, i))
}

/// The difference of two smoothings of the series, saturated at the value
/// bound.
pub open spec fn diff64(c: Seq<i64>, a: int, b: int) -> Seq<i64> {
    Seq::new(c.len(), |i: int| clamp64(ema_rec(c, a, i) - ema_rec(c, b, i)))
}

/// The MACD-style histogram: the smoothing difference minus its own
/// signal smoothing.
pub open spec fn macd64(c: Seq<i64>, a: int, b: int, s: int) -> Seq<i64> {
    let d = diff64(c, a, b);
    Seq::new(c.len(), |i: int| clamp64(d[i] - ema_rec(d, s, i)))
}

/// The raw stochastic value at `i`: one hundred times the close's
/// distance from the window minimum, over the window maximum's distance
/// from that same quantity.
pub open spec fn rsv_at(c: Seq<i64>, n: int, i: int) -> i64 {
    let num = c[i] - seq_min_of(window_at(c, n, i));
    let dom = seq_max_of(window_at(c, n, i)) - num;
    ratio100(num, dom)
}

/// The raw stochastic series.
pub open spec fn rsv64(c: Seq<i64>, n: int) -> Seq<i64> {
    Seq::new(c.len(), |i: int| rsv_at(c, n, i))
}

/// The stochastic K line: the raw stochastic, smoothed.
pub open spec fn kta64(c: Seq<i64>, n: int, m: int) -> Seq<i64> {
    ema64(rsv64(c, n), m)
}

/// The stochastic D line: the K line, smoothed again.
pub open spec fn dta64(c: Seq<i64>, n: int, m: int, s: int) -> Seq<i64> {
    ema64(kta64(c, n, m), s)
}

/// The stochastic J line: three parts D minus two parts K.
pub open spec fn jta64(c: Seq<i64>, n: int, m: int, s: int) -> Seq<i64> {
    let k = kta64(c, n, m);
    let d = dta64(c, n, m, s);
    Seq::new(c.len(), |i: int| clamp64(3 * d[i] - 2 * k[i]))
}

/// The efficiency ratio at `i`: the net move over `lag_n` bars as a share
/// of the summed absolute moves in the trailing window, zero when nothing
/// moved.
pub open spec fn eff_ratio64(c: Seq<i64>, lag_n: int, w: int) -> Seq<i64> {
    let d = Seq::new(c.len(), |i: int| sat64(c[i] - (if i < lag_n { c[0] } else { c[i - lag_n] })));
    let a = Seq::new(c.len(), |i: int| abs_diff64(d[i], 0));
    let vol = roll_sum64(a, w);
    Seq::new(c.len(), |i: int| if vol[i] == 0 { 0i64 } else { ratio100(d[i] as int, vol[i] as int) })
}

/// The spread of the series over its rolling mean, in ratio fixed point.
pub open spec fn spread64(c: Seq<i64>, w: int) -> Seq<i64> {
    let m = roll_mean64(c, w);
    Seq::new(c.len(), |i: int| if m[i] <= 0 { 0i64 } else {
        clamp64((c[i] as int * crate::util::RATIO_SCALE as int) / m[i] as int - crate::util::RATIO_SCALE as int)
    })
}

/// The count of rising rolling-mean steps in the trailing window.
pub open spec fn rankma64(c: Seq<i64>, a: int, b: int) -> Seq<i64> {
    let m = roll_mean64(c, a);
    let fac = Seq::new(c.len(), |i: int| if i > 0 && m[i] - m[i - 1] > 0 { 1i64 } else { 0i64 });
    roll_sum64(fac, b)
}

/// The open-to-close gap as a share of its rolling mean.
pub open spec fn kday_ratio64(o: Seq<i64>, c: Seq<i64>, n: int) -> Seq<i64> {
    let gap = Seq::new(o.len(), |i: int| abs_diff64(o[i], c[i]));
    let m = roll_mean64(gap, n);
    Seq::new(o.len(), |i: int| ratio100(gap[i] as int, m[i] as int))
}

/// Applies a rolling reduction to a series.
pub open spec fn roll_apply64(f: RollFunc, s: Seq<i64>, w: int) -> Seq<i64> {
    match f {
        RollFunc::Max => roll_max64(s, w),
        RollFunc::Min => roll_min64(s, w),
        RollFunc::Mean => roll_mean64(s, w),
        RollFunc::Sum => roll_sum64(s, w),
    }
}

/// Executable rolling reduction.
pub fn roll_apply(f: RollFunc, s: &Vec<i64>, w: usize) -> (r: Vec<i64>)
    requires
        1 <= w <= WINDOW_CAP,
    ensures
        r@ == roll_apply64(f, s@, w as int),
{
    match f {
        RollFunc::Max => roll_max(s, w),
        RollFunc::Min => roll_min(s, w),
        RollFunc::Mean => roll_mean(s, w),
        RollFunc::Sum => roll_sum(s, w),
    }
}

/// `|a - b|`, saturated.
pub fn abs_diff(a: i64, b: i64) -> (r: i64)
    ensures
        r == abs_diff64(a, b),
{
    if a >= b {
        sat_wide(a as i128 - b as i128)
    } else {
        sat_wide(b as i128 - a as i128)
    }
}

/// Executable `ratio100`.
pub fn ratio100_exec(num: i64, den: i64) -> (r: i64)
    ensures
        r == ratio100(num as int, den as int),
{
    if den <= 0 {
        0
    } else {
        clamp_wide(div_floor_wide(100 * (num as i128), den as i128))
    }
}

/// The relative strength index.
pub fn rsi_kernel(c: &Vec<i64>, n: usize) -> (r: Vec<i64>)
    requires
        1 <= n <= WINDOW_CAP,
        bounded(c@, VAL_CAP as int),
    ensures
        r@ == rsi64(c@, n as int),
{
    let len = c.len();
    let mut gains: Vec<i64> = Vec::with_capacity(len);
    let mut losses: Vec<i64> = Vec::with_capacity(len);
    let mut i: usize = 0;
    while i < len
        invariant
            len == c@.len(),
            bounded(c@, VAL_CAP as int),
            i <= len,
            gains@.len() == i,
            losses@.len() == i,
            forall|j: int| 0 <= j < i ==> #[trigger] gains@[j] == gains64(c@)[j],
            forall|j: int| 0 <= j < i ==> #[trigger] losses@[j] == losses64(c@)[j],
            bounded(gains@, EMA_CAP as int),
            bounded(losses@, EMA_CAP as int),
        decreases len - i,
    {
        proof {
            assert(-(VAL_CAP as int) <= c@[i as int] <= VAL_CAP as int);
            if i > 0 {
                assert(-(VAL_CAP as int) <= c@[i as int - 1] <= VAL_CAP as int);
            }
        }
        let prev: i64 = if i == 0 { c[i] } else { c[i - 1] };
        let d: i128 = c[i] as i128 - prev as i128;
        if d > 0 {
            gains.push(sat_wide(d));
            losses.push(0);
        } else if d < 0 {
            gains.push(0);
            losses.push(sat_wide(-d));
        } else {
            gains.push(0);
            losses.push(0);
        }
        i = i + 1;
    }
    proof {
        assert(gains@ =~= gains64(c@));
        assert(losses@ =~= losses64(c@));
    }
    let lg = ema(&gains, n);
    let ls = ema(&losses, n);
    let mut r: Vec<i64> = Vec::with_capacity(len);
    let mut i: usize = 0;
    while i < len
        invariant
            len == c@.len(),
            gains@ == gains64(c@),
            losses@ == losses64(c@),
            lg@.len() == len,
            ls@.len() == len,
            forall|j: int| 0 <= j < len ==> #[trigger] lg@[j] == ema_rec(gains64(c@), n as int, j),
            forall|j: int| 0 <= j < len ==> #[trigger] ls@[j] == ema_rec(losses64(c@), n as int, j),
            i <= len,
            r@.len() == i,
            forall|j: int| 0 <= j < i ==> #[trigger] r@[j] == rsi_at(c@, n as int, j),
        decreases len - i,
    {
        let v = ratio100_exec_wide(lg[i] as i128, lg[i] as i128 + ls[i] as i128);
        r.push(v);
        i = i + 1;
    }
    proof {
        assert(r@ =~= rsi64(c@, n as int));
    }
    r
}

/// `ratio100` on wide intermediates.
fn ratio100_exec_wide(num: i128, den: i128) -> (r: i64)
    requires
        -0x4000_0000_0000_0000_0000_0000 <= num <= 0x4000_0000_0000_0000_0000_0000,
    ensures
        r == ratio100(num as int, den as int),
{
    if den <= 0 {
        0
    } else {
        clamp_wide(div_floor_wide(100 * num, den))
    }
}

/// The true range.
pub fn tr_kernel(h: &Vec<i64>, l: &Vec<i64>, c: &Vec<i64>) -> (r: Vec<i64>)
    requires
        h@.len() == l@.len(),
        h@.len() == c@.len(),
    ensures
        r@ == tr64(h@, l@, c@),
{
    let len = h.len();
    let mut r: Vec<i64> = Vec::with_capacity(len);
    let mut i: usize = 0;
    while i < len
        invariant
            len == h@.len(),
            len == l@.len(),
            len == c@.len(),
            i <= len,
            r@.len() == i,
            forall|j: int| 0 <= j < i ==> #[trigger] r@[j] == tr_at(h@, l@, c@, j),
        decreases len - i,
    {
        let prev: i64 = if i == 0 { c[0] } else { c[i - 1] };
        let hc = abs_diff(h[i], c[i]);
        let cl = abs_diff(l[i], prev);
        let hl = abs_diff(h[i], l[i]);
        r.push(crate::util::max_i64(hc, crate::util::max_i64(cl, hl)));
        i = i + 1;
    }
    proof {
        assert(r@ =~= tr64(h@, l@, c@));
    }
    r
}

/// The raw stochastic series.
pub fn rsv_kernel(c: &Vec<i64>, n: usize) -> (r: Vec<i64>)
    requires
        1 <= n <= WINDOW_CAP,
    ensures
        r@ == rsv64(c@, n as int),
{
    let mn = roll_min(c, n);
    let mx = roll_max(c, n);
    let len = c.len();
    let mut r: Vec<i64> = Vec::with_capacity(len);
    let mut i: usize = 0;
    while i < len
        invariant
            1 <= n <= WINDOW_CAP,
            len == c@.len(),
            mn@.len() == len,
            mx@.len() == len,
            forall|j: int| 0 <= j < len ==> #[trigger] mn@[j] == seq_min_of(window_at(c@, n as int, j)),
            forall|j: int| 0 <= j < len ==> #[trigger] mx@[j] == seq_max_of(window_at(c@, n as int, j)),
            i <= len,
            r@.len() == i,
            forall|j: int| 0 <= j < i ==> #[trigger] r@[j] == rsv_at(c@, n as int, j),
        decreases len - i,
    {
        let num: i128 = c[i] as i128 - mn[i] as i128;
        let dom: i128 = mx[i] as i128 - num;
        let v: i64 = if dom <= 0 {
            0
        } else {
            clamp_wide(div_floor_wide(100 * num, dom))
        };
        proof {
            assert(v == ratio100(num as int, dom as int));
        }
        r.push(v);
        i = i + 1;
    }
    proof {
        assert(r@ =~= rsv64(c@, n as int));
    }
    r
}

/// The difference of two smoothings.
pub fn diff_kernel(c: &Vec<i64>, a: usize, b: usize) -> (r: Vec<i64>)
    requires
        1 <= a <= WINDOW_CAP,
        1 <= b <= WINDOW_CAP,
        bounded(c@, EMA_CAP as int),
    ensures
        r@ == diff64(c@, a as int, b as int),
        bounded(r@, VAL_CAP as int),
{
    let e1 = ema(c, a);
    let e2 = ema(c, b);
    let len = c.len();
    let mut r: Vec<i64> = Vec::with_capacity(len);
    let mut i: usize = 0;
    while i < len
        invariant
            len == c@.len(),
            e1@.len() == len,
            e2@.len() == len,
            forall|j: int| 0 <= j < len ==> #[trigger] e1@[j] == ema_rec(c@, a as int, j),
            forall|j: int| 0 <= j < len ==> #[trigger] e2@[j] == ema_rec(c@, b as int, j),
            i <= len,
            r@.len() == i,
            forall|j: int| 0 <= j < i ==> #[trigger] r@[j] == diff64(c@, a as int, b as int)[j],
            bounded(r@, VAL_CAP as int),
        decreases len - i,
    {
        r.push(clamp_wide(e1[i] as i128 - e2[i] as i128));
        i = i + 1;
    }
    proof {
        assert(r@ =~= diff64(c@, a as int, b as int));
    }
    r
}

/// The MACD-style histogram.
pub fn macd_kernel(c: &Vec<i64>, a: usize, b: usize, s: usize) -> (r: Vec<i64>)
    requires
        1 <= a <= WINDOW_CAP,
        1 <= b <= WINDOW_CAP,
        1 <= s <= WINDOW_CAP,
        bounded(c@, EMA_CAP as int),
    ensures
        r@ == macd64(c@, a as int, b as int, s as int),
{
    let d = diff_kernel(c, a, b);
    proof {
        assert(bounded(d@, EMA_CAP as int)) by {
            assert forall|j: int| 0 <= j < d@.len()
                implies -EMA_CAP <= #[trigger] d@[j] <= EMA_CAP by {
                assert(-VAL_CAP <= d@[j] <= VAL_CAP);
            }
        }
    }
    let sig = ema(&d, s);
    let len = c.len();
    let mut r: Vec<i64> = Vec::with_capacity(len);
    let mut i: usize = 0;
    while i < len
        invariant
            len == c@.len(),
            d@ == diff64(c@, a as int, b as int),
            d@.len() == len,
            sig@.len() == len,
            forall|j: int| 0 <= j < len ==> #[trigger] sig@[j] == ema_rec(d@, s as int, j),
            i <= len,
            r@.len() == i,
            forall|j: int| 0 <= j < i ==> #[trigger] r@[j] == macd64(c@, a as int, b as int, s as int)[j],
        decreases len - i,
    {
        r.push(clamp_wide(d[i] as i128 - sig[i] as i128));
        i = i + 1;
    }
    proof {
        assert(r@ =~= macd64(c@, a as int, b as int, s as int));
    }
    r
}

/// Every raw stochastic value lies within the value bound.
pub proof fn lemma_rsv_bounded(c: Seq<i64>, n: int)
    ensures
        bounded(rsv64(c, n), EMA_CAP as int),
{
    assert forall|j: int| 0 <= j < rsv64(c, n).len()
        implies -EMA_CAP <= #[trigger] rsv64(c, n)[j] <= EMA_CAP by {
        assert(-VAL_CAP <= rsv64(c, n)[j] <= VAL_CAP);
    }
}

/// The stochastic K line.
pub fn kta_kernel(c: &Vec<i64>, n: usize, m: usize) -> (r: Vec<i64>)
    requires
        1 <= n <= WINDOW_CAP,
        1 <= m <= WINDOW_CAP,
    ensures
        r@ == kta64(c@, n as int, m as int),
{
    let rsv = rsv_kernel(c, n);
    proof {
        lemma_rsv_bounded(c@, n as int);
    }
    let r = ema(&rsv, m);
    proof {
        assert(r@ =~= kta64(c@, n as int, m as int));
    }
    r
}

/// The K line stays within the value bound.
pub proof fn lemma_kta_bounded(c: Seq<i64>, n: int, m: int)
    requires
        m >= 1,
    ensures
        bounded(kta64(c, n, m), VAL_CAP as int),
{
    let rsv = rsv64(c, n);
    assert(bounded(rsv, VAL_CAP as int)) by {
        assert forall|j: int| 0 <= j < rsv.len()
            implies -VAL_CAP <= #[trigger] rsv[j] <= VAL_CAP by {}
    }
    assert forall|j: int| 0 <= j < kta64(c, n, m).len()
        implies -VAL_CAP <= #[trigger] kta64(c, n, m)[j] <= VAL_CAP by {
        crate::roll::lemma_ema_bounded(rsv, m, j, VAL_CAP as int);
    }
}

/// The stochastic D line.
pub fn dta_kernel(c: &Vec<i64>, n: usize, m: usize, s: usize) -> (r: Vec<i64>)
    requires
        1 <= n <= WINDOW_CAP,
        1 <= m <= WINDOW_CAP,
        1 <= s <= WINDOW_CAP,
    ensures
        r@ == dta64(c@, n as int, m as int, s as int),
{
    let k = kta_kernel(c, n, m);
    proof {
        lemma_kta_bounded(c@, n as int, m as int);
        assert(bounded(k@, EMA_CAP as int)) by {
            assert forall|j: int| 0 <= j < k@.len()
                implies -EMA_CAP <= #[trigger] k@[j] <= EMA_CAP by {
                assert(-VAL_CAP <= k@[j] <= VAL_CAP);
            }
        }
    }
    let r = ema(&k, s);
    proof {
        assert(r@ =~= dta64(c@, n as int, m as int, s as int));
    }
    r
}

/// The stochastic J line from already-computed K and D lines.
pub fn jta_combine(k: &Vec<i64>, d: &Vec<i64>) -> (r: Vec<i64>)
    requires
        k@.len() == d@.len(),
    ensures
        r@.len() == k@.len(),
        forall|j: int| 0 <= j < k@.len() ==> #[trigger] r@[j] == clamp64(3 * d@[j] - 2 * k@[j]),
{
    let len = k.len();
    let mut r: Vec<i64> = Vec::with_capacity(len);
    let mut i: usize = 0;
    while i < len
        invariant
            len == k@.len(),
            len == d@.len(),
            i <= len,
            r@.len() == i,
            forall|j: int| 0 <= j < i ==> #[trigger] r@[j] == clamp64(3 * d@[j] - 2 * k@[j]),
        decreases len - i,
    {
        r.push(clamp_wide(3 * (d[i] as i128) - 2 * (k[i] as i128)));
        i = i + 1;
    }
    r
}

/// The efficiency ratio.
pub fn eff_ratio_kernel(c: &Vec<i64>, lag_n: usize, w: usize) -> (r: Vec<i64>)
    requires
        1 <= w <= WINDOW_CAP,
    ensures
        r@ == eff_ratio64(c@, lag_n as int, w as int),
{
    let ghost dsp = Seq::new(c@.len(), |i: int| sat64(c@[i] - (if i < lag_n as int { c@[0] } else { c@[i - lag_n as int] })));
    let ghost asp = Seq::new(c@.len(), |i: int| abs_diff64(dsp[i], 0));
    let len = c.len();
    let mut d: Vec<i64> = Vec::with_capacity(len);
    let mut a: Vec<i64> = Vec::with_capacity(len);
    let mut i: usize = 0;
    while i < len
        invariant
            len == c@.len(),
            dsp == Seq::new(c@.len(), |ii: int| sat64(c@[ii] - (if ii < lag_n as int { c@[0] } else { c@[ii - lag_n as int] }))),
            asp == Seq::new(c@.len(), |ii: int| abs_diff64(dsp[ii], 0)),
            i <= len,
            d@.len() == i,
            a@.len() == i,
            forall|j: int| 0 <= j < i ==> #[trigger] d@[j] == dsp[j],
            forall|j: int| 0 <= j < i ==> #[trigger] a@[j] == asp[j],
        decreases len - i,
    {
        let base: i64 = if i < lag_n { c[0] } else { c[i - lag_n] };
        let dv = sat_wide(c[i] as i128 - base as i128);
        d.push(dv);
        a.push(abs_diff(dv, 0));
        i = i + 1;
    }
    proof {
        assert(d@ =~= dsp);
        assert(a@ =~= asp);
    }
    let vol = roll_sum(&a, w);
    let mut r: Vec<i64> = Vec::with_capacity(len);
    let mut i: usize = 0;
    while i < len
        invariant
            len == c@.len(),
            d@ == dsp,
            a@ == asp,
            dsp == Seq::new(c@.len(), |ii: int| sat64(c@[ii] - (if ii < lag_n as int { c@[0] } else { c@[ii - lag_n as int] }))),
            asp == Seq::new(c@.len(), |ii: int| abs_diff64(dsp[ii], 0)),
            vol@ == roll_sum64(asp, w as int),
            vol@.len() == len,
            i <= len,
            r@.len() == i,
            forall|j: int| 0 <= j < i ==> #[trigger] r@[j] == eff_ratio64(c@, lag_n as int, w as int)[j],
        decreases len - i,
    {
        let v: i64 = if vol[i] == 0 { 0 } else { ratio100_exec(d[i], vol[i]) };
        proof {
            assert(v == eff_ratio64(c@, lag_n as int, w as int)[i as int]);
        }
        r.push(v);
        i = i + 1;
    }
    proof {
        assert(r@ =~= eff_ratio64(c@, lag_n as int, w as int));
    }
    r
}

/// The spread over the rolling mean.
pub fn spread_kernel(c: &Vec<i64>, w: usize) -> (r: Vec<i64>)
    requires
        1 <= w <= WINDOW_CAP,
    ensures
        r@ == spread64(c@, w as int),
{
    let m = roll_mean(c, w);
    let len = c.len();
    let mut r: Vec<i64> = Vec::with_capacity(len);
    let mut i: usize = 0;
    while i < len
        invariant
            len == c@.len(),
            m@ == roll_mean64(c@, w as int),
            m@.len() == len,
            i <= len,
            r@.len() == i,
            forall|j: int| 0 <= j < i ==> #[trigger] r@[j] == spread64(c@, w as int)[j],
        decreases len - i,
    {
        let v: i64 = if m[i] <= 0 {
            0
        } else {
            let num: i128 = c[i] as i128 * crate::util::RATIO_SCALE as i128;
            proof {
                assert(-(m@[i as int] as int * 10000000000000000000000000)
                        <= num as int
                        <= m@[i as int] as int * 10000000000000000000000000) by (nonlinear_arith)
                    requires
                        m@[i as int] as int >= 1,
                        -10000000000000000000000000 <= num as int <= 10000000000000000000000000;
                crate::util::lemma_div_bound(num as int, m@[i as int] as int, 10000000000000000000000000);
            }
            let q = div_floor_wide(num, m[i] as i128);
            clamp_wide(q - crate::util::RATIO_SCALE as i128)
        };
        proof {
            assert(v == spread64(c@, w as int)[i as int]);
        }
        r.push(v);
        i = i + 1;
    }
    proof {
        assert(r@ =~= spread64(c@, w as int));
    }
    r
}

/// The rising rolling-mean count.
pub fn rankma_kernel(c: &Vec<i64>, a: usize, b: usize) -> (r: Vec<i64>)
    requires
        1 <= a <= WINDOW_CAP,
        1 <= b <= WINDOW_CAP,
    ensures
        r@ == rankma64(c@, a as int, b as int),
{
    let m = roll_mean(c, a);
    let ghost facsp = Seq::new(c@.len(), |i: int| if i > 0 && m@[i] - m@[i - 1] > 0 { 1i64 } else { 0i64 });
    let len = c.len();
    let mut fac: Vec<i64> = Vec::with_capacity(len);
    let mut i: usize = 0;
    while i < len
        invariant
            len == c@.len(),
            m@.len() == len,
            facsp == Seq::new(c@.len(), |ii: int| if ii > 0 && m@[ii] - m@[ii - 1] > 0 { 1i64 } else { 0i64 }),
            i <= len,
            fac@.len() == i,
            forall|j: int| 0 <= j < i ==> #[trigger] fac@[j] == facsp[j],
        decreases len - i,
    {
        let up = i > 0 && (m[i] as i128 - m[i - 1] as i128) > 0;
        fac.push(if up { 1 } else { 0 });
        i = i + 1;
    }
    proof {
        assert(fac@ =~= facsp);
    }
    let r = roll_sum(&fac, b);
    proof {
        assert(r@ =~= rankma64(c@, a as int, b as int));
    }
    r
}

/// The open-to-close gap as a share of its rolling mean.
pub fn kday_ratio_kernel(o: &Vec<i64>, c: &Vec<i64>, n: usize) -> (r: Vec<i64>)
    requires
        1 <= n <= WINDOW_CAP,
        o@.len() == c@.len(),
    ensures
        r@ == kday_ratio64(o@, c@, n as int),
{
    let ghost gapsp = Seq::new(o@.len(), |i: int| abs_diff64(o@[i], c@[i]));
    let len = o.len();
    let mut gap: Vec<i64> = Vec::with_capacity(len);
    let mut i: usize = 0;
    while i < len
        invariant
            len == o@.len(),
            len == c@.len(),
            gapsp == Seq::new(o@.len(), |ii: int| abs_diff64(o@[ii], c@[ii])),
            i <= len,
            gap@.len() == i,
            forall|j: int| 0 <= j < i ==> #[trigger] gap@[j] == gapsp[j],
        decreases len - i,
    {
        gap.push(abs_diff(o[i], c[i]));
        i = i + 1;
    }
    proof {
        assert(gap@ =~= gapsp);
    }
    let m = roll_mean(&gap, n);
    let mut r: Vec<i64> = Vec::with_capacity(len);
    let mut i: usize = 0;
    while i < len
        invariant
            len == o@.len(),
            gap@ == gapsp,
            gapsp == Seq::new(o@.len(), |ii: int| abs_diff64(o@[ii], c@[ii])),
            m@ == roll_mean64(gapsp, n as int),
            m@.len() == len,
            gap@.len() == len,
            i <= len,
            r@.len() == i,
            forall|j: int| 0 <= j < i ==> #[trigger] r@[j] == kday_ratio64(o@, c@, n as int)[j],
        decreases len - i,
    {
        let v = ratio100_exec(gap[i], m[i]);
        proof {
            assert(v == kday_ratio64(o@, c@, n as int)[i as int]);
        }
        r.push(v);
        i = i + 1;
    }
    proof {
        assert(r@ =~= kday_ratio64(o@, c@, n as int));
    }
    r
}

/// The true range of value-bounded columns is bounded by twice the bound,
/// and so admissible for smoothing.
pub proof fn lemma_tr_bounded(h: Seq<i64>, l: Seq<i64>, c: Seq<i64>, cap: int)
    requires
        bounded(h, cap),
        bounded(l, cap),
        bounded(c, cap),
        0 <= cap,
        2 * cap <= i64::MAX,
        h.len() == l.len(),
        h.len() == c.len(),
    ensures
        bounded(tr64(h, l, c), 2 * cap),
{
    assert forall|j: int| 0 <= j < tr64(h, l, c).len()
        implies -(2 * cap) <= #[trigger] tr64(h, l, c)[j] <= 2 * cap by {
        assert(-cap <= h[j] <= cap);
        assert(-cap <= l[j] <= cap);
        assert(-cap <= c[j] <= cap);
        if j > 0 {
            assert(-cap <= c[j - 1] <= cap);
        } else {
            assert(-cap <= c[0] <= cap);
        }
    }
}

/// The signal step of the MACD histogram: an already-computed smoothing
/// difference minus its own smoothing.
pub fn macd_combine(d: &Vec<i64>, s: usize) -> (r: Vec<i64>)
    requires
        1 <= s <= WINDOW_CAP,
        bounded(d@, EMA_CAP as int),
    ensures
        r@.len() == d@.len(),
        forall|i: int| 0 <= i < d@.len() ==> #[trigger] r@[i] == clamp64(d@[i] - ema_rec(d@, s as int, i)),
{
    let sig = ema(d, s);
    let len = d.len();
    let mut r: Vec<i64> = Vec::with_capacity(len);
    let mut i: usize = 0;
    while i < len
        invariant
            len == d@.len(),
            sig@.len() == len,
            forall|j: int| 0 <= j < len ==> #[trigger] sig@[j] == ema_rec(d@, s as int, j),
            i <= len,
            r@.len() == i,
            forall|j: int| 0 <= j < i ==> #[trigger] r@[j] == clamp64(d@[j] - ema_rec(d@, s as int, j)),
        decreases len - i,
    {
        r.push(clamp_wide(d[i] as i128 - sig[i] as i128));
        i = i + 1;
    }
    r
}

} // verus!
