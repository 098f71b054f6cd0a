//! Shared numeric kernels: exponential smoothing, lagging, and rolling
//! window reductions.  All indicators are built from these.
//!
//! Division rounds towards minus infinity, so executable results coincide
//! with the mathematical `/` of the specifications.  Rolling sums saturate
//! at the `i64` range instead of wrapping.

use vstd::prelude::*;
use crate::util::{
    bounded, div_floor_wide, lemma_div_bound, max64, min64, max_i64, min_i64, sat64, sat_wide,
    WINDOW_CAP,
};

verus! {

/// Largest magnitude the smoothing kernel accepts: wide enough for prices,
/// bar-over-bar differences and saturated ratios, small enough that every
/// smoothing intermediate fits the wide integer arithmetic.
pub const EMA_CAP: i64 = 35184372088832;

/// The exponential moving average with span `n` at position `i`:
/// seeded with the first element, then each step weighs the new value two
/// parts in `n + 1`.
pub open spec fn ema_rec(s: Seq<i64>, n: int, i: int) -> int
    decreases i,
{
    if i <= 0 {
        s[0] as int
    } else {
        (2 * s[i] + (n - 1) * ema_rec(s, n, i - 1)) / (n + 1)
    }
}

/// The whole smoothed series.
pub open spec fn ema64(s: Seq<i64>, n: int) -> Seq<i64> {
    Seq::new(s.len(), |i: int| ema_rec(s, n, i) as i64)
}

/// Smoothing keeps every value within the bound of its inputs.
pub proof fn lemma_ema_bounded(s: Seq<i64>, n: int, i: int, cap: int)
    requires
        bounded(s, cap),
        cap >= 0,
        n >= 1,
        0 <= i < s.len(),
    ensures
        -cap <= ema_rec(s, n, i) <= cap,
    decreases i,
{
    if i <= 0 {
    } else {
        lemma_ema_bounded(s, n, i - 1, cap);
        let prev = ema_rec(s, n, i - 1);
        let num = 2 * s[i] + (n - 1) * prev;
        assert(-((n - 1) * cap) <= (n - 1) * prev <= (n - 1) * cap) by (nonlinear_arith)
            requires -cap <= prev <= cap, n >= 1, cap >= 0;
        assert((n + 1) * cap == 2 * cap + (n - 1) * cap) by (nonlinear_arith);
        lemma_div_bound(num, n + 1, cap);
    }
}

/// The exponentially smoothed series: span `n`, seeded from the first
/// element, fixed-point floor rounding at each step.
pub fn ema(data: &Vec<i64>, n: usize) -> (r: Vec<i64>)
    requires
        1 <= n <= WINDOW_CAP,
        bounded(data@, EMA_CAP as int),
    ensures
        r@ == ema64(data@, n as int),
        r@.len() == data@.len(),
        forall|i: int| 0 <= i < data@.len() ==> #[trigger] r@[i] == ema_rec(data@, n as int, i),
        forall|b: int| #[trigger] bounded(data@, b) && b >= 0 ==> bounded(r@, b),
{
    let mut r: Vec<i64> = Vec::with_capacity(data.len());
    let len = data.len();
    if len == 0 {
        proof {
            assert(r@ =~= ema64(data@, n as int));
            assert forall|b: int| #[trigger] bounded(data@, b) && b >= 0 implies bounded(r@, b) by {}
        }
        return r;
    }
    let mut prev: i64 = data[0];
    r.push(prev);
    let mut i: usize = 1;
    while i < len
        invariant
            1 <= n <= WINDOW_CAP,
            bounded(data@, EMA_CAP as int),
            len == data@.len(),
            1 <= i <= len,
            r@.len() == i,
            forall|j: int| 0 <= j < i ==> #[trigger] r@[j] == ema_rec(data@, n as int, j),
            prev == ema_rec(data@, n as int, i - 1),
            -EMA_CAP <= prev <= EMA_CAP,
        decreases len - i,
    {
        let x = data[i];
        proof {
            assert(-((n - 1) as int * EMA_CAP as int) <= (n - 1) as int * prev as int
                    <= (n - 1) as int * EMA_CAP as int) by (nonlinear_arith)
                requires
                    -EMA_CAP <= prev <= EMA_CAP,
                    n >= 1;
            assert((n - 1) as int * EMA_CAP as int <= WINDOW_CAP as int * EMA_CAP as int) by (nonlinear_arith)
                requires 1 <= n <= WINDOW_CAP;
        }
        let num: i128 = 2 * (x as i128) + ((n - 1) as i128) * (prev as i128);
        proof {
            assert((n + 1) as int * EMA_CAP as int == 2 * EMA_CAP as int + (n - 1) as int * EMA_CAP as int)
                by (nonlinear_arith);
            lemma_div_bound(num as int, (n + 1) as int, EMA_CAP as int);
        }
        let q: i128 = div_floor_wide(num, (n + 1) as i128);
        prev = q as i64;
        r.push(prev);
        i = i + 1;
    }
    proof {
        assert(r@ =~= ema64(data@, n as int));
        assert forall|b: int| #[trigger] bounded(data@, b) && b >= 0 implies bounded(r@, b) by {
            assert forall|j: int| 0 <= j < r@.len() implies -b <= #[trigger] r@[j] <= b by {
                lemma_ema_bounded(data@, n as int, j, b);
            }
        }
    }
    r
}

/// The series shifted right by `k`, the vacated head filled with `fill`.
pub open spec fn lag_at(s: Seq<i64>, k: int, fill: i64, i: int) -> i64 {
    if i < k {
        fill
    } else {
        s[i - k]
    }
}

/// The whole lagged series.
pub open spec fn lag64(s: Seq<i64>, k: int, fill: i64) -> Seq<i64> {
    Seq::new(s.len(), |i: int| lag_at(s, k, fill, i))
}

/// Shifts the series right by `k`, filling the head with `fill`.
pub fn lag(data: &Vec<i64>, k: usize, fill: i64) -> (r: Vec<i64>)
    ensures
        r@ == lag64(data@, k as int, fill),
        r@.len() == data@.len(),
        forall|i: int| 0 <= i < data@.len() ==> #[trigger] r@[i] == lag_at(data@, k as int, fill, i),
{
    let len = data.len();
    let mut r: Vec<i64> = Vec::with_capacity(len);
    let mut i: usize = 0;
    while i < len
        invariant
            len == data@.len(),
            i <= len,
            r@.len() == i,
            forall|j: int| 0 <= j < i ==> #[trigger] r@[j] == lag_at(data@, k as int, fill, j),
        decreases len - i,
    {
        if i < k {
            r.push(fill);
        } else {
            r.push(data[i - k]);
        }
        i = i + 1;
    }
    proof {
        assert(r@ =~= lag64(data@, k as int, fill));
    }
    r
}

/// Largest element of a non-empty sequence.
pub open spec fn seq_max_of(s: Seq<i64>) -> i64
    recommends
        s.len() > 0,
    decreases s.len(),
{
    if s.len() <= 1 {
        s[0]
    } else {
        max64(seq_max_of(s.drop_last()), s.last())
    }
}

/// Smallest element of a non-empty sequence.
pub open spec fn seq_min_of(s: Seq<i64>) -> i64
    recommends
        s.len() > 0,
    decreases s.len(),
{
    if s.len() <= 1 {
        s[0]
    } else {
        min64(seq_min_of(s.drop_last()), s.last())
    }
}

/// Sum of a sequence.
pub open spec fn seq_sum_of(s: Seq<i64>) -> int
    decreases s.len(),
{
    if s.len() == 0 {
        0
    } else {
        seq_sum_of(s.drop_last()) + s.last()
    }
}

/// Start of the trailing window of length `w` that ends at position `i`.
pub open spec fn win_lo(i: int, w: int) -> int {
    if i + 1 >= w {
        i + 1 - w
    } else {
        0
    }
}

/// The trailing window of `s` with nominal length `w` ending at `i`; near
/// the start of the series the window is shorter.
pub open spec fn window_at(s: Seq<i64>, w: int, i: int) -> Seq<i64> {
    s.subrange(win_lo(i, w), i + 1)
}

/// Rolling maxima over trailing windows of length `w`.
pub open spec fn roll_max64(s: Seq<i64>, w: int) -> Seq<i64> {
    Seq::new(s.len(), |i: int| seq_max_of(window_at(s, w, i)))
}

/// Rolling minima over trailing windows of length `w`.
pub open spec fn roll_min64(s: Seq<i64>, w: int) -> Seq<i64> {
    Seq::new(s.len(), |i: int| seq_min_of(window_at(s, w, i)))
}

/// Rolling sums over trailing windows of length `w`, saturated into the
/// `i64` range.
pub open spec fn roll_sum64(s: Seq<i64>, w: int) -> Seq<i64> {
    Seq::new(s.len(), |i: int| sat64(seq_sum_of(window_at(s, w, i))))
}

/// Rolling means over trailing windows of length `w`: the window sum,
/// floor-divided by the actual window length.
pub open spec fn roll_mean64(s: Seq<i64>, w: int) -> Seq<i64> {
    Seq::new(s.len(), |i: int| sat64(seq_sum_of(window_at(s, w, i)) / window_at(s, w, i).len() as int))
}

/// Rolling maximum over trailing windows of length `w`.
pub fn roll_max(data: &Vec<i64>, w: usize) -> (r: Vec<i64>)
    requires
        w >= 1,
    ensures
        r@ == roll_max64(data@, w as int),
        r@.len() == data@.len(),
        forall|i: int| 0 <= i < data@.len() ==> #[trigger] r@[i] == seq_max_of(window_at(data@, w as int, i)),
{
    let len = data.len();
    let mut r: Vec<i64> = Vec::with_capacity(len);
    let mut i: usize = 0;
    while i < len
        invariant
            w >= 1,
            len == data@.len(),
            i <= len,
            r@.len() == i,
            forall|j: int| 0 <= j < i ==> #[trigger] r@[j] == seq_max_of(window_at(data@, w as int, j)),
        decreases len - i,
    {
        let lo: usize = if i + 1 >= w { i + 1 - w } else { 0 };
        let mut acc: i64 = data[lo];
        let mut j: usize = lo + 1;
        proof {
            assert(data@.subrange(lo as int, lo as int + 1) =~= seq![data@[lo as int]]);
        }
        while j <= i
            invariant
                w >= 1,
                len == data@.len(),
                i < len,
                lo == win_lo(i as int, w as int),
                lo < j <= i + 1,
                acc == seq_max_of(data@.subrange(lo as int, j as int)),
            decreases i + 1 - j,
        {
            proof {
                assert(data@.subrange(lo as int, j as int + 1).drop_last() =~= data@.subrange(lo as int, j as int));
            }
            acc = max_i64(acc, data[j]);
            j = j + 1;
        }
        r.push(acc);
        i = i + 1;
    }
    proof {
        assert(r@ =~= roll_max64(data@, w as int));
    }
    r
}

/// Rolling minimum over trailing windows of length `w`.
pub fn roll_min(data: &Vec<i64>, w: usize) -> (r: Vec<i64>)
    requires
        w >= 1,
    ensures
        r@ == roll_min64(data@, w as int),
        r@.len() == data@.len(),
        forall|i: int| 0 <= i < data@.len() ==> #[trigger] r@[i] == seq_min_of(window_at(data@, w as int, i)),
{
    let len = data.len();
    let mut r: Vec<i64> = Vec::with_capacity(len);
    let mut i: usize = 0;
    while i < len
        invariant
            w >= 1,
            len == data@.len(),
            i <= len,
            r@.len() == i,
            forall|j: int| 0 <= j < i ==> #[trigger] r@[j] == seq_min_of(window_at(data@, w as int, j)),
        decreases len - i,
    {
        let lo: usize = if i + 1 >= w { i + 1 - w } else { 0 };
        let mut acc: i64 = data[lo];
        let mut j: usize = lo + 1;
        proof {
            assert(data@.subrange(lo as int, lo as int + 1) =~= seq![data@[lo as int]]);
        }
        while j <= i
            invariant
                w >= 1,
                len == data@.len(),
                i < len,
                lo == win_lo(i as int, w as int),
                lo < j <= i + 1,
                acc == seq_min_of(data@.subrange(lo as int, j as int)),
            decreases i + 1 - j,
        {
            proof {
                assert(data@.subrange(lo as int, j as int + 1).drop_last() =~= data@.subrange(lo as int, j as int));
            }
            acc = min_i64(acc, data[j]);
            j = j + 1;
        }
        r.push(acc);
        i = i + 1;
    }
    proof {
        assert(r@ =~= roll_min64(data@, w as int));
    }
    r
}

/// A window's sum stays within its length times the `i64` range.
pub proof fn lemma_sum_bounded(s: Seq<i64>, cap: int)
    requires
        bounded(s, cap),
        cap >= 0,
    ensures
        -(s.len() * cap) <= seq_sum_of(s) <= s.len() * cap,
    decreases s.len(),
{
    if s.len() == 0 {
    } else {
        lemma_sum_bounded(s.drop_last(), cap);
        assert(s.len() * cap == (s.len() - 1) * cap + cap) by (nonlinear_arith);
    }
}

/// Sums the window of `data` from `lo` to `hi` exclusive, on a wide
/// accumulator.
fn window_sum(data: &Vec<i64>, lo: usize, hi: usize) -> (acc: i128)
    requires
        lo <= hi <= data@.len(),
        hi - lo <= WINDOW_CAP,
    ensures
        acc == seq_sum_of(data@.subrange(lo as int, hi as int)),
        -(WINDOW_CAP as int * 0x8000_0000_0000_0000) <= acc <= WINDOW_CAP as int * 0x8000_0000_0000_0000,
{
    let mut acc: i128 = 0;
    let mut j: usize = lo;
    proof {
        assert(data@.subrange(lo as int, lo as int) =~= Seq::<i64>::empty());
    }
    while j < hi
        invariant
            lo <= j <= hi <= data@.len(),
            hi - lo <= WINDOW_CAP,
            acc == seq_sum_of(data@.subrange(lo as int, j as int)),
            -((j - lo) * 0x8000_0000_0000_0000) <= acc <= (j - lo) * 0x8000_0000_0000_0000,
        decreases hi - j,
    {
        proof {
            assert(data@.subrange(lo as int, j as int + 1).drop_last() =~= data@.subrange(lo as int, j as int));
            assert((j + 1 - lo) * 0x8000_0000_0000_0000 == (j - lo) * 0x8000_0000_0000_0000 + 0x8000_0000_0000_0000)
                by (nonlinear_arith);
        }
        acc = acc + data[j] as i128;
        j = j + 1;
    }
    proof {
        assert((hi - lo) * 0x8000_0000_0000_0000 <= WINDOW_CAP as int * 0x8000_0000_0000_0000) by (nonlinear_arith)
            requires hi - lo <= WINDOW_CAP as int;
    }
    acc
}

/// Rolling sum over trailing windows of length `w`, saturated into `i64`.
pub fn roll_sum(data: &Vec<i64>, w: usize) -> (r: Vec<i64>)
    requires
        1 <= w <= WINDOW_CAP,
    ensures
        r@ == roll_sum64(data@, w as int),
        r@.len() == data@.len(),
        forall|i: int| 0 <= i < data@.len() ==> #[trigger] r@[i] == sat64(seq_sum_of(window_at(data@, w as int, i))),
{
    let len = data.len();
    let mut r: Vec<i64> = Vec::with_capacity(len);
    let mut i: usize = 0;
    while i < len
        invariant
            1 <= w <= WINDOW_CAP,
            len == data@.len(),
            i <= len,
            r@.len() == i,
            forall|j: int| 0 <= j < i ==> #[trigger] r@[j] == sat64(seq_sum_of(window_at(data@, w as int, j))),
        decreases len - i,
    {
        let lo: usize = if i + 1 >= w { i + 1 - w } else { 0 };
        let acc = window_sum(data, lo, i + 1);
        r.push(sat_wide(acc));
        i = i + 1;
    }
    proof {
        assert(r@ =~= roll_sum64(data@, w as int));
    }
    r
}

/// Rolling mean over trailing windows of length `w`.
pub fn roll_mean(data: &Vec<i64>, w: usize) -> (r: Vec<i64>)
    requires
        1 <= w <= WINDOW_CAP,
    ensures
        r@ == roll_mean64(data@, w as int),
        r@.len() == data@.len(),
        forall|i: int| 0 <= i < data@.len() ==> #[trigger] r@[i]
            == sat64(seq_sum_of(window_at(data@, w as int, i)) / window_at(data@, w as int, i).len() as int),
{
    let len = data.len();
    let mut r: Vec<i64> = Vec::with_capacity(len);
    let mut i: usize = 0;
    while i < len
        invariant
            1 <= w <= WINDOW_CAP,
            len == data@.len(),
            i <= len,
            r@.len() == i,
            forall|j: int| 0 <= j < i ==> #[trigger] r@[j]
                == sat64(seq_sum_of(window_at(data@, w as int, j)) / window_at(data@, w as int, j).len() as int),
        decreases len - i,
    {
        let lo: usize = if i + 1 >= w { i + 1 - w } else { 0 };
        let acc = window_sum(data, lo, i + 1);
        let wl: usize = i + 1 - lo;
        proof {
            assert(window_at(data@, w as int, i as int).len() == wl as int);
        }
        let q = div_floor_wide(acc, wl as i128);
        r.push(sat_wide(q));
        i = i + 1;
    }
    proof {
        assert(r@ =~= roll_mean64(data@, w as int));
    }
    r
}

/// How many elements of `s` are strictly below `x`.
pub open spec fn count_lt(s: Seq<i64>, x: i64) -> int
    decreases s.len(),
{
    if s.len() == 0 {
        0int
    } else {
        count_lt(s.drop_last(), x) + (if s.last() < x { 1int } else { 0int })
    }
}

/// How many elements of `s` are strictly above `x`.
pub open spec fn count_gt(s: Seq<i64>, x: i64) -> int
    decreases s.len(),
{
    if s.len() == 0 {
        0int
    } else {
        count_gt(s.drop_last(), x) + (if s.last() > x { 1int } else { 0int })
    }
}

/// Counts the elements of `data[lo..hi]` strictly below `x`.
pub fn count_below(data: &Vec<i64>, lo: usize, hi: usize, x: i64) -> (r: usize)
    requires
        lo <= hi <= data@.len(),
    ensures
        r == count_lt(data@.subrange(lo as int, hi as int), x),
        r <= hi - lo,
{
    let mut r: usize = 0;
    let mut j: usize = lo;
    proof {
        assert(data@.subrange(lo as int, lo as int) =~= Seq::<i64>::empty());
    }
    while j < hi
        invariant
            lo <= j <= hi <= data@.len(),
            r == count_lt(data@.subrange(lo as int, j as int), x),
            r <= j - lo,
        decreases hi - j,
    {
        proof {
            assert(data@.subrange(lo as int, j as int + 1).drop_last() =~= data@.subrange(lo as int, j as int));
        }
        if data[j] < x {
            r = r + 1;
        }
        j = j + 1;
    }
    r
}

/// Counts the elements of `data[lo..hi]` strictly above `x`.
pub fn count_above(data: &Vec<i64>, lo: usize, hi: usize, x: i64) -> (r: usize)
    requires
        lo <= hi <= data@.len(),
    ensures
        r == count_gt(data@.subrange(lo as int, hi as int), x),
        r <= hi - lo,
{
    let mut r: usize = 0;
    let mut j: usize = lo;
    proof {
        assert(data@.subrange(lo as int, lo as int) =~= Seq::<i64>::empty());
    }
    while j < hi
        invariant
            lo <= j <= hi <= data@.len(),
            r == count_gt(data@.subrange(lo as int, j as int), x),
            r <= j - lo,
        decreases hi - j,
    {
        proof {
            assert(data@.subrange(lo as int, j as int + 1).drop_last() =~= data@.subrange(lo as int, j as int));
        }
        if data[j] > x {
            r = r + 1;
        }
        j = j + 1;
    }
    r
}

} // verus!
