//! Forecast alignment: projecting a series computed on a reduced grid
//! back onto the original grid through the finished mask its transform
//! recorded, plus the companion combinators — forward fill and trailing
//! percentile rank.  A missing value is `None`.

use vstd::prelude::*;
use crate::inter::KlineState;
use crate::roll::{count_lt, count_below};
use crate::util::div_floor_wide;

verus! {

/// How a projected indicator is post-processed: ranked within its own
/// history, aligned back onto the base grid, aligned and forward filled,
/// or interleaved with its rank.
#[derive(Clone, Copy, PartialEq, Eq, Structural, Debug)]
pub enum ForeCalc {
    Rank(usize),
    VertBack,
    VertBackFill,
    WithRank,
}

/// How many entries of the mask are `Finished`.
pub open spec fn count_fin(mask: Seq<KlineState>) -> int
    decreases mask.len(),
{
    if mask.len() == 0 {
        0int
    } else {
        count_fin(mask.drop_last()) + (if mask.last() is Finished { 1int } else { 0int })
    }
}

/// One aligned position: a `Finished` input position receives the next
/// computed value in order, every other position is missing.
pub open spec fn align_at(mask: Seq<KlineState>, xs: Seq<Option<i64>>, i: int) -> Option<i64> {
    if mask[i] is Finished {
        if 0 <= count_fin(mask.take(i)) < xs.len() {
            xs[count_fin(mask.take(i))]
        } else {
            None
        }
    } else {
        None
    }
}

/// The whole aligned row: one entry per input position of the mask.
pub open spec fn align_row(mask: Seq<KlineState>, xs: Seq<Option<i64>>) -> Seq<Option<i64>> {
    Seq::new(mask.len(), |i: int| align_at(mask, xs, i))
}

/// The present values of a row, in order.
pub open spec fn collect_some(s: Seq<Option<i64>>) -> Seq<Option<i64>>
    decreases s.len(),
{
    if s.len() == 0 {
        Seq::empty()
    } else {
        collect_some(s.drop_last()) + (if s.last() is Some { seq![s.last()] } else { Seq::empty() })
    }
}

/// The count of finished entries never exceeds the mask length and grows
/// by prefix.
pub proof fn lemma_count_fin_bounds(mask: Seq<KlineState>)
    ensures
        0 <= count_fin(mask) <= mask.len(),
    decreases mask.len(),
{
    if mask.len() > 0 {
        lemma_count_fin_bounds(mask.drop_last());
    }
}

/// Extending a prefix by one position grows the finished count by one
/// exactly on finished positions.
pub proof fn lemma_count_fin_step(mask: Seq<KlineState>, i: int)
    requires
        0 <= i < mask.len(),
    ensures
        count_fin(mask.take(i + 1))
            == count_fin(mask.take(i)) + (if mask[i] is Finished { 1int } else { 0int }),
{
    assert(mask.take(i + 1).drop_last() =~= mask.take(i));
    assert(mask.take(i + 1).last() == mask[i]);
}

/// Aligns a computed row of length `count_fin(mask)` onto the mask's
/// grid: finished positions receive the computed values in order, all
/// other positions are missing.
pub fn align(mask: &Vec<KlineState>, xs: &Vec<Option<i64>>) -> (r: Vec<Option<i64>>)
    requires
        count_fin(mask@) == xs@.len(),
    ensures
        r@ == align_row(mask@, xs@),
        r@.len() == mask@.len(),
{
    let n = mask.len();
    let xl = xs.len();
    let mut r: Vec<Option<i64>> = Vec::with_capacity(n);
    let mut k: usize = 0;
    let mut i: usize = 0;
    proof {
        assert(mask@.take(0) =~= Seq::<KlineState>::empty());
    }
    while i < n
        invariant
            n == mask@.len(),
            count_fin(mask@) == xs@.len(),
            i <= n,
            r@.len() == i,
            xl == xs@.len(),
            k == count_fin(mask@.take(i as int)),
            k <= xl,
            forall|j: int| 0 <= j < i ==> #[trigger] r@[j] == align_at(mask@, xs@, j),
        decreases n - i,
    {
        proof {
            lemma_count_fin_step(mask@, i as int);
            lemma_count_fin_prefix_le(mask@, i as int + 1);
        }
        match mask[i] {
            KlineState::Finished => {
                proof {
                    assert(count_fin(mask@.take(i as int)) < count_fin(mask@.take(i as int + 1)));
                    assert(k < xl);
                }
                r.push(xs[k]);
                k = k + 1;
            },
            _ => {
                r.push(None);
            },
        }
        i = i + 1;
    }
    proof {
        assert(r@ =~= align_row(mask@, xs@));
    }
    r
}

/// A prefix never holds more finished entries than the whole.
pub proof fn lemma_count_fin_prefix_le(mask: Seq<KlineState>, i: int)
    requires
        0 <= i <= mask.len(),
    ensures
        count_fin(mask.take(i)) <= count_fin(mask),
    decreases mask.len() - i,
{
    if i < mask.len() {
        lemma_count_fin_step(mask, i);
        lemma_count_fin_prefix_le(mask, i + 1);
    } else {
        assert(mask.take(i) =~= mask);
    }
}

/// The mask-alignment round trip: aligning a computed row onto the mask's
/// grid yields one entry per input position, present exactly on the
/// finished positions — of which there are as many as computed values —
/// and reading the present values back in input order returns the
/// computed row unchanged.
pub proof fn lemma_mask_alignment_round_trip(mask: Seq<KlineState>, xs: Seq<Option<i64>>)
    requires
        count_fin(mask) == xs.len(),
        forall|j: int| 0 <= j < xs.len() ==> #[trigger] xs[j] is Some,
    ensures
        align_row(mask, xs).len() == mask.len(),
        forall|i: int| 0 <= i < mask.len()
            ==> (#[trigger] align_row(mask, xs)[i] is Some <==> mask[i] is Finished),
        collect_some(align_row(mask, xs)) == xs,
{
    assert forall|i: int| 0 <= i < mask.len()
        implies (#[trigger] align_row(mask, xs)[i] is Some <==> mask[i] is Finished) by {
        lemma_align_entry(mask, xs, i);
    }
    lemma_collect_align(mask, xs, mask.len() as int);
    assert(mask.take(mask.len() as int) =~= mask);
    assert(align_row(mask, xs).take(mask.len() as int) =~= align_row(mask, xs));
    assert(xs.take(count_fin(mask)) =~= xs);
}

/// Each aligned entry is present exactly on finished positions, and
/// carries the right computed value.
proof fn lemma_align_entry(mask: Seq<KlineState>, xs: Seq<Option<i64>>, i: int)
    requires
        count_fin(mask) == xs.len(),
        forall|j: int| 0 <= j < xs.len() ==> #[trigger] xs[j] is Some,
        0 <= i < mask.len(),
    ensures
        align_row(mask, xs)[i] is Some <==> mask[i] is Finished,
        mask[i] is Finished ==> align_row(mask, xs)[i] == xs[count_fin(mask.take(i))],
{
    if mask[i] is Finished {
        lemma_count_fin_step(mask, i);
        lemma_count_fin_prefix_le(mask, i + 1);
        lemma_count_fin_bounds(mask.take(i));
    }
}

/// Collecting the present values of an aligned prefix returns the
/// computed prefix.
proof fn lemma_collect_align(mask: Seq<KlineState>, xs: Seq<Option<i64>>, i: int)
    requires
        count_fin(mask) == xs.len(),
        forall|j: int| 0 <= j < xs.len() ==> #[trigger] xs[j] is Some,
        0 <= i <= mask.len(),
    ensures
        collect_some(align_row(mask, xs).take(i)) == xs.take(count_fin(mask.take(i))),
    decreases i,
{
    if i == 0 {
        assert(align_row(mask, xs).take(0) =~= Seq::<Option<i64>>::empty());
        assert(mask.take(0) =~= Seq::<KlineState>::empty());
        assert(collect_some(Seq::<Option<i64>>::empty()) =~= xs.take(0));
    } else {
        lemma_collect_align(mask, xs, i - 1);
        lemma_count_fin_step(mask, i - 1);
        lemma_align_entry(mask, xs, i - 1);
        assert(align_row(mask, xs).take(i).drop_last() =~= align_row(mask, xs).take(i - 1));
        assert(align_row(mask, xs).take(i).last() == align_row(mask, xs)[i - 1]);
        let kpre = count_fin(mask.take(i - 1));
        let k = count_fin(mask.take(i));
        lemma_count_fin_prefix_le(mask, i);
        lemma_count_fin_bounds(mask.take(i - 1));
        if mask[i - 1] is Finished {
            assert(k == kpre + 1);
            assert(xs.take(k) =~= xs.take(kpre).push(xs[kpre]));
            assert(collect_some(align_row(mask, xs).take(i))
                =~= collect_some(align_row(mask, xs).take(i - 1)) + seq![xs[kpre]]);
        } else {
            assert(k == kpre);
            assert(collect_some(align_row(mask, xs).take(i))
                =~= collect_some(align_row(mask, xs).take(i - 1)));
        }
    }
}

/// Counts the finished entries of a mask.
pub fn count_fin_exec(mask: &Vec<KlineState>) -> (r: usize)
    ensures
        r == count_fin(mask@),
{
    let n = mask.len();
    let mut r: usize = 0;
    let mut i: usize = 0;
    proof {
        assert(mask@.take(0) =~= Seq::<KlineState>::empty());
    }
    while i < n
        invariant
            n == mask@.len(),
            i <= n,
            r == count_fin(mask@.take(i as int)),
            r <= i,
        decreases n - i,
    {
        proof {
            lemma_count_fin_step(mask@, i as int);
        }
        match mask[i] {
            KlineState::Finished => {
                r = r + 1;
            },
            _ => {
            },
        }
        i = i + 1;
    }
    proof {
        assert(mask@.take(n as int) =~= mask@);
    }
    r
}

/// A plain row lifted to a row of present values.
pub open spec fn wrap_row(xs: Seq<i64>) -> Seq<Option<i64>> {
    Seq::new(xs.len(), |i: int| Some(xs[i]))
}

/// Lifts a plain row to a row of present values.
pub fn wrap_row_exec(xs: &Vec<i64>) -> (r: Vec<Option<i64>>)
    ensures
        r@ == wrap_row(xs@),
{
    let n = xs.len();
    let mut r: Vec<Option<i64>> = Vec::with_capacity(n);
    let mut i: usize = 0;
    while i < n
        invariant
            n == xs@.len(),
            i <= n,
            r@.len() == i,
            forall|j: int| 0 <= j < i ==> #[trigger] r@[j] == Some(xs@[j]),
        decreases n - i,
    {
        r.push(Some(xs[i]));
        i = i + 1;
    }
    proof {
        assert(r@ =~= wrap_row(xs@));
    }
    r
}

/// The last present value at or before `i`, if any.
pub open spec fn ffill_at(s: Seq<Option<i64>>, i: int) -> Option<i64>
    decreases i,
{
    if s[i] is Some {
        s[i]
    } else if i <= 0 {
        None
    } else {
        ffill_at(s, i - 1)
    }
}

/// The row with every gap filled forward from the last present value.
pub open spec fn ffill64(s: Seq<Option<i64>>) -> Seq<Option<i64>> {
    Seq::new(s.len(), |i: int| ffill_at(s, i))
}

/// Fills every missing entry forward from the last present value; leading
/// missing entries stay missing.
pub fn ffill(s: &Vec<Option<i64>>) -> (r: Vec<Option<i64>>)
    ensures
        r@ == ffill64(s@),
{
    let n = s.len();
    let mut r: Vec<Option<i64>> = Vec::with_capacity(n);
    let mut last: Option<i64> = None;
    let mut i: usize = 0;
    while i < n
        invariant
            n == s@.len(),
            i <= n,
            r@.len() == i,
            last == (if i == 0 { None } else { ffill_at(s@, i as int - 1) }),
            forall|j: int| 0 <= j < i ==> #[trigger] r@[j] == ffill_at(s@, j),
        decreases n - i,
    {
        match s[i] {
            Some(v) => {
                last = Some(v);
            },
            None => {
            },
        }
        r.push(last);
        i = i + 1;
    }
    proof {
        assert(r@ =~= ffill64(s@));
    }
    r
}

/// The trailing percentile rank at `t`: the share of earlier values lying
/// strictly below the current one, as a percentage of the history length;
/// the first `warm` positions are missing.
pub open spec fn rank_at(d: Seq<i64>, warm: int, t: int) -> Option<i64> {
    if t < warm {
        None
    } else {
        Some(((100 * count_lt(d.take(t), d[t])) / (t + 1)) as i64)
    }
}

/// The whole trailing percentile rank series.
pub open spec fn rank64(d: Seq<i64>, warm: int) -> Seq<Option<i64>> {
    Seq::new(d.len(), |t: int| rank_at(d, warm, t))
}

/// The trailing percentile rank of each value within its own history.
pub fn rank1d(d: &Vec<i64>, warm: usize) -> (r: Vec<Option<i64>>)
    ensures
        r@ == rank64(d@, warm as int),
{
    let n = d.len();
    let mut r: Vec<Option<i64>> = Vec::with_capacity(n);
    let mut t: usize = 0;
    while t < n
        invariant
            n == d@.len(),
            t <= n,
            r@.len() == t,
            forall|j: int| 0 <= j < t ==> #[trigger] r@[j] == rank_at(d@, warm as int, j),
        decreases n - t,
    {
        if t < warm {
            r.push(None);
        } else {
            let cnt = count_below(d, 0, t, d[t]);
            proof {
                assert(d@.subrange(0, t as int) =~= d@.take(t as int));
                assert(100 * cnt as int <= (t as int + 1) * 100) by (nonlinear_arith)
                    requires cnt as int <= t as int;
                crate::util::lemma_div_bound(100 * cnt as int, t as int + 1, 100);
                vstd::arithmetic::div_mod::lemma_div_is_ordered(0, 100 * cnt as int, t as int + 1);
            }
            let q = crate::util::div_floor_wide(100 * (cnt as i128), (t as i128) + 1);
            r.push(Some(q as i64));
        }
        t = t + 1;
    }
    proof {
        assert(r@ =~= rank64(d@, warm as int));
    }
    r
}

} // verus!
