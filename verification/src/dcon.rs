//! The price transforms: each descriptor re-expresses a bar series, some
//! reducing its cardinality and recording a finished mask over the input
//! bars.  Descriptor equality is structural, and a descriptor is the cache
//! key for its transform result.

use vstd::prelude::*;
use crate::clock::Interval;
use crate::inter::{
    KlineData, KlineState, KlineStateInter,
    init_model, model_of, model_emits, model_bars_bar, model_mask_bar, model_step_bar,
};
use crate::price::{PriceArc, PriceOri, bars_nonneg};
use crate::roll::{
    ema64, ema, seq_min_of, window_at, count_gt, count_above, EMA_CAP,
};
use crate::util::{
    bounded, clamp64, clamp_wide, div_floor, div_floor_wide, max64, min64, max_i64, min_i64,
    RATIO_SCALE, VAL_CAP, WINDOW_CAP,
};

verus! {

/// A transform descriptor.  `Tf` is the identity; `Ha` smooths the bars
/// Heikin-Ashi style; `Event` re-aggregates the bars under a session
/// schedule; `PreNow(pre, now)` evaluates `pre` as the base for scoped
/// consumers and hands its result to `now`; `VolFilter` keeps the bars
/// whose volume reaches a trailing percentile; `Log` rescales every price
/// by the global minimum low; `FlatTick` suppresses one-bar close spikes.
#[derive(Debug)]
pub enum Convert {
    Tf(usize, usize),
    Ha(usize),
    Event(Vec<Interval>),
    PreNow(Box<Convert>, Box<Convert>),
    VolFilter(usize, usize),
    Log,
    FlatTick,
}

/// The mathematical shape of a descriptor: the same tree with the
/// schedule abstracted to a sequence.
pub enum ConvertView {
    Tf(usize, usize),
    Ha(usize),
    Event(Seq<Interval>),
    PreNow(Box<ConvertView>, Box<ConvertView>),
    VolFilter(usize, usize),
    Log,
    FlatTick,
}

/// The view of a descriptor.
pub open spec fn cvt_view(c: Convert) -> ConvertView
    decreases c,
{
    match c {
        Convert::Tf(a, b) => ConvertView::Tf(a, b),
        Convert::Ha(w) => ConvertView::Ha(w),
        Convert::Event(ivs) => ConvertView::Event(ivs@),
        Convert::PreNow(pre, now) => ConvertView::PreNow(Box::new(cvt_view(*pre)), Box::new(cvt_view(*now))),
        Convert::VolFilter(w, p) => ConvertView::VolFilter(w, p),
        Convert::Log => ConvertView::Log,
        Convert::FlatTick => ConvertView::FlatTick,
    }
}

impl View for Convert {
    type V = ConvertView;

    open spec fn view(&self) -> ConvertView {
        cvt_view(*self)
    }
}

/// Structural equality of two descriptors, recursively.
fn eq_convert(a: &Convert, b: &Convert) -> (r: bool)
    ensures
        r == (a@ == b@),
    decreases *a,
{
    match (a, b) {
        (Convert::Tf(a0, a1), Convert::Tf(b0, b1)) => a0 == b0 && a1 == b1,
        (Convert::Ha(a0), Convert::Ha(b0)) => a0 == b0,
        (Convert::Event(av), Convert::Event(bv)) => {
            if av.len() != bv.len() {
                return false;
            }
            let n = av.len();
            let mut i: usize = 0;
            while i < n
                invariant
                    n == av@.len(),
                    n == bv@.len(),
                    i <= n,
                    a@ == ConvertView::Event(av@),
                    b@ == ConvertView::Event(bv@),
                    forall|j: int| 0 <= j < i ==> av@[j] == bv@[j],
                decreases n - i,
            {
                if av[i] != bv[i] {
                    proof {
                        assert(a@ == ConvertView::Event(av@));
                        assert(b@ == ConvertView::Event(bv@));
                        if a@ == b@ {
                            assert(av@ == bv@);
                            assert(av@[i as int] == bv@[i as int]);
                        }
                    }
                    return false;
                }
                i = i + 1;
            }
            proof {
                assert(av@ =~= bv@);
            }
            true
        },
        (Convert::PreNow(ap, an), Convert::PreNow(bp, bn)) => {
            eq_convert(ap, bp) && eq_convert(an, bn)
        },
        (Convert::VolFilter(a0, a1), Convert::VolFilter(b0, b1)) => a0 == b0 && a1 == b1,
        (Convert::Log, Convert::Log) => true,
        (Convert::FlatTick, Convert::FlatTick) => true,
        _ => false,
    }
}

impl PartialEq for Convert {
    fn eq(&self, other: &Convert) -> (r: bool) {
        eq_convert(self, other)
    }
}

impl vstd::std_specs::cmp::PartialEqSpecImpl for Convert {
    open spec fn obeys_eq_spec() -> bool {
        true
    }

    open spec fn eq_spec(&self, other: &Convert) -> bool {
        self@ == other@
    }
}

impl Eq for Convert {}

/// Structural deep copy.
fn clone_convert(c: &Convert) -> (r: Convert)
    ensures
        r@ == c@,
    decreases *c,
{
    match c {
        Convert::Tf(a0, a1) => Convert::Tf(*a0, *a1),
        Convert::Ha(a0) => Convert::Ha(*a0),
        Convert::Event(ivs) => {
            let n = ivs.len();
            let mut v: Vec<Interval> = Vec::with_capacity(n);
            let mut i: usize = 0;
            while i < n
                invariant
                    n == ivs@.len(),
                    i <= n,
                    v@ =~= ivs@.take(i as int),
                decreases n - i,
            {
                v.push(ivs[i]);
                proof {
                    assert(v@ =~= ivs@.take(i as int + 1));
                }
                i = i + 1;
            }
            proof {
                assert(v@ =~= ivs@);
            }
            Convert::Event(v)
        },
        Convert::PreNow(p, n) => Convert::PreNow(Box::new(clone_convert(p)), Box::new(clone_convert(n))),
        Convert::VolFilter(a0, a1) => Convert::VolFilter(*a0, *a1),
        Convert::Log => Convert::Log,
        Convert::FlatTick => Convert::FlatTick,
    }
}

impl Clone for Convert {
    /// A clone is structurally equal to the original.
    fn clone(&self) -> (r: Convert)
        ensures
            r@ == self@,
    {
        clone_convert(self)
    }
}

/// Configuration validity of a descriptor: windows are non-trivial and in
/// range, schedules are non-empty, percentiles are percentages.
pub open spec fn convert_wf(c: ConvertView) -> bool
    decreases c,
{
    match c {
        ConvertView::Tf(_, _) => true,
        ConvertView::Ha(w) => 1 <= w <= WINDOW_CAP,
        ConvertView::Event(ivs) => ivs.len() > 0,
        ConvertView::PreNow(pre, now) => convert_wf(*pre) && convert_wf(*now),
        ConvertView::VolFilter(w, p) => 1 <= w <= WINDOW_CAP && p <= 100,
        ConvertView::Log => true,
        ConvertView::FlatTick => true,
    }
}

/// The open column of a bar sequence.
pub open spec fn opens_of(bs: Seq<KlineData>) -> Seq<i64> {
    Seq::new(bs.len(), |i: int| bs[i].open)
}

/// The high column of a bar sequence.
pub open spec fn highs_of(bs: Seq<KlineData>) -> Seq<i64> {
    Seq::new(bs.len(), |i: int| bs[i].high)
}

/// The close column of a bar sequence.
pub open spec fn closes_of(bs: Seq<KlineData>) -> Seq<i64> {
    Seq::new(bs.len(), |i: int| bs[i].close)
}

/// The low column of a bar sequence.
pub open spec fn lows_of(bs: Seq<KlineData>) -> Seq<i64> {
    Seq::new(bs.len(), |i: int| bs[i].low)
}

/// The timestamp column of a bar sequence.
pub open spec fn dates_of(bs: Seq<KlineData>) -> Seq<crate::clock::TimePoint> {
    Seq::new(bs.len(), |i: int| bs[i].date_time)
}

/// The amount column of a bar sequence.
pub open spec fn amounts_of(bs: Seq<KlineData>) -> Seq<i64> {
    Seq::new(bs.len(), |i: int| bs[i].amount)
}

/// The volume column of a bar sequence.
pub open spec fn volumes_of(bs: Seq<KlineData>) -> Seq<i64> {
    Seq::new(bs.len(), |i: int| bs[i].volume)
}

/// All four price fields of the bar lie in `[-b, b]`.
pub open spec fn kline_bounded(d: KlineData, b: int) -> bool {
    &&& -b <= d.open <= b
    &&& -b <= d.high <= b
    &&& -b <= d.low <= b
    &&& -b <= d.close <= b
}

/// Every bar's price fields lie in `[-b, b]`.
pub open spec fn bars_bounded(bs: Seq<KlineData>, b: int) -> bool {
    forall|i: int| 0 <= i < bs.len() ==> kline_bounded(#[trigger] bs[i], b)
}

/// The Heikin-Ashi close: the average of the bar's four prices.
pub open spec fn ha_close_at(bs: Seq<KlineData>, i: int) -> i64 {
    ((bs[i].open + bs[i].high + bs[i].low + bs[i].close) / 4) as i64
}

/// The Heikin-Ashi open: the smoothed close, lagged one bar, the first
/// element repeating the seed to avoid an undefined lag.
pub open spec fn ha_open_at(bs: Seq<KlineData>, w: int, i: int) -> i64 {
    let e = ema64(closes_of(bs), w);
    if i == 0 {
        e[0]
    } else {
        e[i - 1]
    }
}

/// One Heikin-Ashi bar: new open, high, low and close; time, volume,
/// amount and provenance carried through.
pub open spec fn ha_bar_at(bs: Seq<KlineData>, w: int, i: int) -> KlineData {
    let c2 = ha_close_at(bs, i);
    let o2 = ha_open_at(bs, w, i);
    KlineData {
        date_time: bs[i].date_time,
        open: o2,
        high: max64(bs[i].high, max64(o2, c2)),
        low: min64(bs[i].low, min64(o2, c2)),
        close: c2,
        volume: bs[i].volume,
        amount: bs[i].amount,
        ki: bs[i].ki,
    }
}

/// The Heikin-Ashi transform, one output bar per input bar.
pub open spec fn ha_bars(bs: Seq<KlineData>, w: int) -> Seq<KlineData> {
    Seq::new(bs.len(), |i: int| ha_bar_at(bs, w, i))
}

/// The volume-filter keep rule at bar `i`: the bar stays when its volume
/// reaches the `p`-th percentile of the trailing window, that is, when no
/// more than the top `(100 - p)` share of the window lies strictly above
/// it.
pub open spec fn vf_keep(bs: Seq<KlineData>, w: int, p: int, i: int) -> bool {
    let win = window_at(volumes_of(bs), w, i);
    count_gt(win, win.last()) <= win.len() - 1 - (((win.len() - 1) * p) / 100)
}

/// The finished mask the volume filter records over every input bar.
pub open spec fn vf_mask(bs: Seq<KlineData>, w: int, p: int) -> Seq<KlineState> {
    Seq::new(bs.len(), |i: int| if vf_keep(bs, w, p, i) { KlineState::Finished } else { KlineState::Ignor })
}

/// The bars of the first `n` inputs that the volume filter keeps.
pub open spec fn vf_bars_upto(bs: Seq<KlineData>, w: int, p: int, n: int) -> Seq<KlineData>
    decreases n,
{
    if n <= 0 {
        Seq::empty()
    } else {
        vf_bars_upto(bs, w, p, n - 1)
            + (if vf_keep(bs, w, p, n - 1) { seq![bs[n - 1]] } else { Seq::empty() })
    }
}

/// The bars the volume filter keeps, in input order.
pub open spec fn vf_bars(bs: Seq<KlineData>, w: int, p: int) -> Seq<KlineData> {
    vf_bars_upto(bs, w, p, bs.len() as int)
}

/// A price rescaled by the series minimum low, in ratio fixed point.
pub open spec fn log_scale_at(x: i64, m: i64) -> i64 {
    clamp64((x as int * RATIO_SCALE as int) / m as int)
}

/// One log-normalised bar.
pub open spec fn log_bar_at(bs: Seq<KlineData>, m: i64, i: int) -> KlineData {
    KlineData {
        date_time: bs[i].date_time,
        open: log_scale_at(bs[i].open, m),
        high: log_scale_at(bs[i].high, m),
        low: log_scale_at(bs[i].low, m),
        close: log_scale_at(bs[i].close, m),
        volume: bs[i].volume,
        amount: bs[i].amount,
        ki: bs[i].ki,
    }
}

/// The log-normalise transform: every price divided by the global minimum
/// low, in ratio fixed point.  A series whose minimum low is not positive
/// is left unchanged.
pub open spec fn log_bars(bs: Seq<KlineData>) -> Seq<KlineData> {
    if bs.len() == 0 || seq_min_of(lows_of(bs)) < 1 {
        bs
    } else {
        Seq::new(bs.len(), |i: int| log_bar_at(bs, seq_min_of(lows_of(bs)), i))
    }
}

/// The flat-tick close: a close that repeats the value of two bars ago
/// while its neighbours agree is taken as a one-bar spike and replaced by
/// that neighbour value.
pub open spec fn flat_close_at(c: Seq<i64>, i: int) -> i64 {
    if i == 0 || i == c.len() - 1 {
        c[i]
    } else if c[i - 1] == c[i + 1] && c[i] != c[i + 1] {
        c[i - 1]
    } else {
        c[i]
    }
}

/// One flat-tick bar: all four prices collapse to the smoothed close.
pub open spec fn flat_bar_at(bs: Seq<KlineData>, i: int) -> KlineData {
    let c2 = flat_close_at(closes_of(bs), i);
    KlineData {
        date_time: bs[i].date_time,
        open: c2,
        high: c2,
        low: c2,
        close: c2,
        volume: bs[i].volume,
        amount: bs[i].amount,
        ki: bs[i].ki,
    }
}

/// The flat-tick transform, one output bar per input bar.
pub open spec fn flat_bars(bs: Seq<KlineData>) -> Seq<KlineData> {
    Seq::new(bs.len(), |i: int| flat_bar_at(bs, i))
}

/// What a descriptor turns an input bar sequence into.  The composite
/// descriptor produces what its second stage produces; its first stage
/// only supplies the base series for scoped consumers.
pub open spec fn convert_bars(c: ConvertView, input: Seq<KlineData>) -> Seq<KlineData>
    decreases c,
{
    match c {
        ConvertView::Tf(_, _) => input,
        ConvertView::Ha(w) => ha_bars(input, w as int),
        ConvertView::Event(ivs) => model_bars_bar(init_model(ivs), ivs, input),
        ConvertView::PreNow(_pre, now) => convert_bars(*now, input),
        ConvertView::VolFilter(w, p) => vf_bars(input, w as int, p as int),
        ConvertView::Log => log_bars(input),
        ConvertView::FlatTick => flat_bars(input),
    }
}

/// The finished mask a descriptor records over the input bars, if it
/// reduces cardinality.
pub open spec fn convert_mask(c: ConvertView, input: Seq<KlineData>) -> Option<Seq<KlineState>>
    decreases c,
{
    match c {
        ConvertView::Event(ivs) => Some(model_mask_bar(init_model(ivs), ivs, input)),
        ConvertView::PreNow(_pre, now) => convert_mask(*now, input),
        ConvertView::VolFilter(w, p) => Some(vf_mask(input, w as int, p as int)),
        _ => None,
    }
}

/// The recorded mask of a published series, as a mathematical option.
pub open spec fn mask_view(o: Option<Vec<KlineState>>) -> Option<Seq<KlineState>> {
    match o {
        None => None,
        Some(v) => Some(v@),
    }
}

/// One aggregation step keeps the accumulator's prices bounded and its
/// volume and amount non-negative.
pub proof fn lemma_step_bar_props(md: crate::inter::InterModel, ivs: Seq<Interval>, b: KlineData, cap: int)
    requires
        kline_bounded(md.kws.data, cap),
        md.kws.data.volume >= 0,
        md.kws.data.amount >= 0,
        kline_bounded(b, cap),
        b.volume >= 0,
        b.amount >= 0,
        cap >= 0,
    ensures
        kline_bounded(model_step_bar(md, ivs, b).kws.data, cap),
        model_step_bar(md, ivs, b).kws.data.volume >= 0,
        model_step_bar(md, ivs, b).kws.data.amount >= 0,
{
}

impl Convert {
    /// Checks configuration validity.
    pub fn is_wf(&self) -> (r: bool)
        ensures
            r == convert_wf(self@),
        decreases *self,
    {
        match self {
            Convert::Tf(_, _) => true,
            Convert::Ha(w) => 1 <= *w && *w <= WINDOW_CAP,
            Convert::Event(ivs) => ivs.len() > 0,
            Convert::PreNow(pre, now) => pre.is_wf() && now.is_wf(),
            Convert::VolFilter(w, p) => 1 <= *w && *w <= WINDOW_CAP && *p <= 100,
            Convert::Log => true,
            Convert::FlatTick => true,
        }
    }

    /// Applies the transform to a published series, producing the new
    /// series and, for cardinality-reducing transforms, the finished mask
    /// over the input bars.
    pub fn convert(&self, price: &PriceArc) -> (r: PriceArc)
        requires
            convert_wf(self@),
            price.wf(),
            bars_bounded(price.bars(), VAL_CAP as int),
            bars_nonneg(price.bars()),
        ensures
            r.wf(),
            r.bars() == convert_bars(self@, price.bars()),
            mask_view(r.finished) == convert_mask(self@, price.bars()),
            bars_bounded(r.bars(), VAL_CAP as int),
            bars_nonneg(r.bars()),
        decreases *self,
    {
        let ghost bs = price.bars();
        match self {
            Convert::Tf(_, _) => {
                let r = price.share_no_mask();
                proof {
                    assert(r.bars() == bs);
                    assert forall|j: int| 0 <= j < r.bars().len()
                        implies kline_bounded(#[trigger] r.bars()[j], VAL_CAP as int) by {
                        assert(kline_bounded(bs[j], VAL_CAP as int));
                    }
                    assert forall|j: int| 0 <= j < r.bars().len()
                        implies #[trigger] r.bars()[j].volume >= 0 && r.bars()[j].amount >= 0 by {
                        assert(bs[j].volume >= 0 && bs[j].amount >= 0);
                    }
                }
                r
            },
            Convert::PreNow(_pre, now) => {
                let r = now.convert(price);
                proof {
                    assert(bars_bounded(r.bars(), VAL_CAP as int));
                    assert(bars_nonneg(r.bars()));
                }
                r
            },
            Convert::Ha(w) => {
                let w = *w;
                let closes = price.closes_vec();
                proof {
                    assert forall|i: int| 0 <= i < closes@.len()
                        implies -EMA_CAP <= #[trigger] closes@[i] <= EMA_CAP by {
                        assert(kline_bounded(bs[i], VAL_CAP as int));
                    }
                    assert forall|i: int| 0 <= i < closes@.len()
                        implies -(VAL_CAP as int) <= #[trigger] closes@[i] <= VAL_CAP as int by {
                        assert(kline_bounded(bs[i], VAL_CAP as int));
                    }
                    assert(bounded(closes@, EMA_CAP as int));
                    assert(bounded(closes@, VAL_CAP as int));
                }
                let e = ema(&closes, w);
                let n = price.len();
                let mut out = PriceOri::with_capacity(n);
                let mut i: usize = 0;
                while i < n
                    invariant
                        1 <= w <= WINDOW_CAP,
                        price.wf(),
                        bars_bounded(bs, VAL_CAP as int),
                        bars_nonneg(bs),
                        bs == price.bars(),
                        n == bs.len(),
                        closes@ == closes_of(bs),
                        e@ == ema64(closes_of(bs), w as int),
                        e@.len() == n,
                        bounded(e@, VAL_CAP as int),
                        i <= n,
                        out.wf(),
                        out.bars() =~= ha_bars(bs, w as int).take(i as int),
                    decreases n - i,
                {
                    let b = price.get_bar(i);
                    proof {
                        assert(kline_bounded(bs[i as int], VAL_CAP as int));
                    }
                    let sum = b.open + b.high + b.low + b.close;
                    let c2 = div_floor(sum, 4);
                    let o2 = if i == 0 { e[0] } else { e[i - 1] };
                    let hi2 = max_i64(b.high, max_i64(o2, c2));
                    let lo2 = min_i64(b.low, min_i64(o2, c2));
                    let d = KlineData {
                        date_time: b.date_time,
                        open: o2,
                        high: hi2,
                        low: lo2,
                        close: c2,
                        volume: b.volume,
                        amount: b.amount,
                        ki: b.ki,
                    };
                    proof {
                        assert(d == ha_bar_at(bs, w as int, i as int));
                    }
                    out.update(&d);
                    proof {
                        assert(out.bars() =~= ha_bars(bs, w as int).take(i as int + 1));
                    }
                    i = i + 1;
                }
                proof {
                    assert(ha_bars(bs, w as int).take(n as int) =~= ha_bars(bs, w as int));
                }
                let mut r = out.to_arc();
                let shared = price.share_immut();
                r.immut_info = shared;
                proof {
                    assert(r.bars() == ha_bars(bs, w as int));
                    assert forall|j: int| 0 <= j < r.bars().len()
                        implies kline_bounded(#[trigger] r.bars()[j], VAL_CAP as int)
                            && r.bars()[j].volume >= 0
                            && r.bars()[j].amount >= 0 by {
                        assert(r.bars()[j] == ha_bar_at(bs, w as int, j));
                        assert(kline_bounded(bs[j], VAL_CAP as int));
                        assert(bs[j].volume >= 0 && bs[j].amount >= 0);
                        crate::util::lemma_div_bound(
                            bs[j].open + bs[j].high + bs[j].low + bs[j].close, 4, VAL_CAP as int);
                        crate::roll::lemma_ema_bounded(
                            closes_of(bs), w as int, if j == 0 { 0int } else { j - 1 }, VAL_CAP as int);
                    }
                    assert(bars_bounded(r.bars(), VAL_CAP as int));
                    assert(bars_nonneg(r.bars()));
                }
                r
            },
            Convert::Event(ivs) => {
                let schedule = crate::clock::copy_intervals(ivs);
                let mut machine = KlineStateInter::from_intervals(schedule);
                let n = price.len();
                let mut out = PriceOri::with_capacity(n);
                let mut maskv: Vec<KlineState> = Vec::with_capacity(n);
                let mut i: usize = 0;
                proof {
                    assert(bs.skip(0) =~= bs);
                }
                while i < n
                    invariant
                        price.wf(),
                        bars_bounded(bs, VAL_CAP as int),
                        bars_nonneg(bs),
                        bs == price.bars(),
                        n == bs.len(),
                        machine.intervals@ == ivs@,
                        crate::inter::inter_wf(machine),
                        kline_bounded(machine.kline_state.data, VAL_CAP as int),
                        i <= n,
                        out.wf(),
                        bars_bounded(out.bars(), VAL_CAP as int),
                        bars_nonneg(out.bars()),
                        maskv@.len() == i,
                        out.bars() + model_bars_bar(model_of(machine), ivs@, bs.skip(i as int))
                            =~= model_bars_bar(init_model(ivs@), ivs@, bs),
                        maskv@ + model_mask_bar(model_of(machine), ivs@, bs.skip(i as int))
                            =~= model_mask_bar(init_model(ivs@), ivs@, bs),
                    decreases n - i,
                {
                    let b = price.get_bar(i);
                    proof {
                        assert(bs.skip(i as int)[0] == bs[i as int]);
                        assert(bs.skip(i as int).drop_first() =~= bs.skip(i as int + 1));
                        assert(kline_bounded(b, VAL_CAP as int));
                        lemma_step_bar_props(model_of(machine), ivs@, b, VAL_CAP as int);
                    }
                    let ghost bars_before = out.bars();
                    let st = machine.step_emit_bar(&b, &mut out);
                    maskv.push(st);
                    proof {
                        if model_emits(model_of(machine)) {
                            assert(out.bars() =~= bars_before.push(machine.kline_state.data));
                        }
                    }
                    i = i + 1;
                }
                proof {
                    assert(bs.skip(n as int).len() == 0);
                    assert(out.bars() + Seq::<KlineData>::empty() =~= out.bars());
                    assert(maskv@ + Seq::<KlineState>::empty() =~= maskv@);
                }
                let r = out.to_arc_with_mask(maskv);
                proof {
                    assert(bars_bounded(r.bars(), VAL_CAP as int));
                    assert(bars_nonneg(r.bars()));
                }
                r
            },
            Convert::VolFilter(w, p) => {
                let w = *w;
                let p = *p;
                let vols = price.volumes_vec();
                let n = price.len();
                let mut out = PriceOri::with_capacity(n);
                let mut maskv: Vec<KlineState> = Vec::with_capacity(n);
                let mut i: usize = 0;
                while i < n
                    invariant
                        1 <= w <= WINDOW_CAP,
                        p <= 100,
                        price.wf(),
                        bars_bounded(bs, VAL_CAP as int),
                        bars_nonneg(bs),
                        bs == price.bars(),
                        n == bs.len(),
                        vols@ == volumes_of(bs),
                        vols@.len() == n,
                        i <= n,
                        out.wf(),
                        out.bars() =~= vf_bars_upto(bs, w as int, p as int, i as int),
                        maskv@ =~= vf_mask(bs, w as int, p as int).take(i as int),
                    decreases n - i,
                {
                    let lo: usize = if i + 1 >= w { i + 1 - w } else { 0 };
                    let wl: usize = i + 1 - lo;
                    let cnt = count_above(&vols, lo, i + 1, vols[i]);
                    proof {
                        assert(wl <= w);
                        assert((wl - 1) as int * p as int <= (wl - 1) as int * 100) by (nonlinear_arith)
                            requires p <= 100, wl >= 1;
                        assert((wl - 1) as int * p as int <= WINDOW_CAP as int * 100) by (nonlinear_arith)
                            requires p <= 100, 1 <= wl <= WINDOW_CAP as int;
                        assert((wl - 1) as int * p as int >= 0) by (nonlinear_arith)
                            requires wl >= 1;
                    }
                    let k: usize = ((wl - 1) * p) / 100;
                    proof {
                        vstd::arithmetic::div_mod::lemma_div_is_ordered(
                            (wl - 1) as int * p as int, (wl - 1) as int * 100, 100);
                        vstd::arithmetic::div_mod::lemma_div_multiples_vanish((wl - 1) as int, 100);
                        assert(k <= wl - 1);
                        assert(window_at(volumes_of(bs), w as int, i as int)
                            =~= vols@.subrange(lo as int, i as int + 1));
                        assert(window_at(volumes_of(bs), w as int, i as int).last() == vols@[i as int]);
                    }
                    let keep = cnt <= wl - 1 - k;
                    proof {
                        assert(keep == vf_keep(bs, w as int, p as int, i as int));
                    }
                    maskv.push(if keep { KlineState::Finished } else { KlineState::Ignor });
                    if keep {
                        let b = price.get_bar(i);
                        out.update(&b);
                    }
                    proof {
                        assert(out.bars() =~= vf_bars_upto(bs, w as int, p as int, i as int + 1));
                        assert(maskv@ =~= vf_mask(bs, w as int, p as int).take(i as int + 1));
                    }
                    i = i + 1;
                }
                proof {
                    assert(vf_mask(bs, w as int, p as int).take(n as int) =~= vf_mask(bs, w as int, p as int));
                    lemma_vf_bars_props(bs, w as int, p as int, n as int);
                }
                let r = out.to_arc_with_mask(maskv);
                proof {
                    assert(bars_bounded(r.bars(), VAL_CAP as int));
                    assert(bars_nonneg(r.bars()));
                }
                r
            },
            Convert::Log => {
                let n = price.len();
                if n == 0 {
                    let r = price.share_no_mask();
                    proof {
                        assert(r.bars() =~= log_bars(bs));
                        assert forall|j: int| 0 <= j < r.bars().len()
                            implies kline_bounded(#[trigger] r.bars()[j], VAL_CAP as int)
                                && r.bars()[j].volume >= 0 && r.bars()[j].amount >= 0 by {
                            assert(kline_bounded(bs[j], VAL_CAP as int));
                            assert(bs[j].volume >= 0 && bs[j].amount >= 0);
                        }
                    }
                    return r;
                }
                let lows = price.lows_vec();
                let mut m: i64 = lows[0];
                let mut j: usize = 1;
                proof {
                    assert(lows@.subrange(0, 1) =~= seq![lows@[0]]);
                }
                while j < n
                    invariant
                        n == lows@.len(),
                        1 <= j <= n,
                        m == seq_min_of(lows@.subrange(0, j as int)),
                    decreases n - j,
                {
                    proof {
                        assert(lows@.subrange(0, j as int + 1).drop_last() =~= lows@.subrange(0, j as int));
                    }
                    m = min_i64(m, lows[j]);
                    j = j + 1;
                }
                proof {
                    assert(lows@.subrange(0, n as int) =~= lows@);
                }
                if m < 1 {
                    let r = price.share_no_mask();
                    proof {
                        assert(r.bars() =~= log_bars(bs));
                        assert forall|j: int| 0 <= j < r.bars().len()
                            implies kline_bounded(#[trigger] r.bars()[j], VAL_CAP as int)
                                && r.bars()[j].volume >= 0 && r.bars()[j].amount >= 0 by {
                            assert(kline_bounded(bs[j], VAL_CAP as int));
                            assert(bs[j].volume >= 0 && bs[j].amount >= 0);
                        }
                    }
                    return r;
                }
                let mut out = PriceOri::with_capacity(n);
                let mut i: usize = 0;
                while i < n
                    invariant
                        price.wf(),
                        bars_bounded(bs, VAL_CAP as int),
                        bs == price.bars(),
                        n == bs.len(),
                        m >= 1,
                        m == seq_min_of(lows_of(bs)),
                        i <= n,
                        out.wf(),
                        out.bars() =~= log_bars(bs).take(i as int),
                    decreases n - i,
                {
                    let b = price.get_bar(i);
                    let o2 = clamp_wide(div_floor_wide(b.open as i128 * RATIO_SCALE as i128, m as i128));
                    let h2 = clamp_wide(div_floor_wide(b.high as i128 * RATIO_SCALE as i128, m as i128));
                    let l2 = clamp_wide(div_floor_wide(b.low as i128 * RATIO_SCALE as i128, m as i128));
                    let c2 = clamp_wide(div_floor_wide(b.close as i128 * RATIO_SCALE as i128, m as i128));
                    let d = KlineData {
                        date_time: b.date_time,
                        open: o2,
                        high: h2,
                        low: l2,
                        close: c2,
                        volume: b.volume,
                        amount: b.amount,
                        ki: b.ki,
                    };
                    proof {
                        assert(d == log_bar_at(bs, m, i as int));
                        assert(log_bars(bs)[i as int] == log_bar_at(bs, m, i as int));
                    }
                    out.update(&d);
                    proof {
                        assert(out.bars() =~= log_bars(bs).take(i as int + 1));
                    }
                    i = i + 1;
                }
                proof {
                    assert(log_bars(bs).take(n as int) =~= log_bars(bs));
                }
                let mut r = out.to_arc();
                let shared = price.share_immut();
                r.immut_info = shared;
                proof {
                    assert(r.bars() == log_bars(bs));
                    assert forall|j: int| 0 <= j < r.bars().len()
                        implies kline_bounded(#[trigger] r.bars()[j], VAL_CAP as int)
                            && r.bars()[j].volume >= 0 && r.bars()[j].amount >= 0 by {
                        assert(r.bars()[j] == log_bar_at(bs, m, j));
                        assert(bs[j].volume >= 0 && bs[j].amount >= 0);
                    }
                }
                r
            },
            Convert::FlatTick => {
                let closes = price.closes_vec();
                let n = price.len();
                let mut out = PriceOri::with_capacity(n);
                let mut i: usize = 0;
                while i < n
                    invariant
                        price.wf(),
                        bars_bounded(bs, VAL_CAP as int),
                        bars_nonneg(bs),
                        bs == price.bars(),
                        n == bs.len(),
                        closes@ == closes_of(bs),
                        closes@.len() == n,
                        i <= n,
                        out.wf(),
                        out.bars() =~= flat_bars(bs).take(i as int),
                    decreases n - i,
                {
                    let c2: i64 = if i == 0 || i == n - 1 {
                        closes[i]
                    } else if closes[i - 1] == closes[i + 1] && closes[i] != closes[i + 1] {
                        closes[i - 1]
                    } else {
                        closes[i]
                    };
                    let b = price.get_bar(i);
                    let d = KlineData {
                        date_time: b.date_time,
                        open: c2,
                        high: c2,
                        low: c2,
                        close: c2,
                        volume: b.volume,
                        amount: b.amount,
                        ki: b.ki,
                    };
                    proof {
                        assert(d == flat_bar_at(bs, i as int));
                        assert(kline_bounded(bs[i as int], VAL_CAP as int));
                        if !(i == 0 || i as int == bs.len() - 1) {
                            assert(kline_bounded(bs[i as int - 1], VAL_CAP as int));
                        }
                    }
                    out.update(&d);
                    proof {
                        assert(out.bars() =~= flat_bars(bs).take(i as int + 1));
                    }
                    i = i + 1;
                }
                proof {
                    assert(flat_bars(bs).take(n as int) =~= flat_bars(bs));
                }
                let mut r = out.to_arc();
                let shared = price.share_immut();
                r.immut_info = shared;
                proof {
                    assert(r.bars() == flat_bars(bs));
                    assert forall|j: int| 0 <= j < r.bars().len()
                        implies kline_bounded(#[trigger] r.bars()[j], VAL_CAP as int)
                            && r.bars()[j].volume >= 0 && r.bars()[j].amount >= 0 by {
                        assert(r.bars()[j] == flat_bar_at(bs, j));
                        assert(kline_bounded(bs[j], VAL_CAP as int));
                        assert(bs[j].volume >= 0 && bs[j].amount >= 0);
                        if !(j == 0 || j == bs.len() - 1) {
                            assert(kline_bounded(bs[j - 1], VAL_CAP as int));
                        }
                    }
                }
                r
            },
        }
    }
}

/// The bars the volume filter keeps are bars of the input, so they stay
/// bounded and their volumes non-negative.
pub proof fn lemma_vf_bars_props(bs: Seq<KlineData>, w: int, p: int, n: int)
    requires
        n <= bs.len(),
    ensures
        bars_bounded(bs, VAL_CAP as int) ==> bars_bounded(vf_bars_upto(bs, w, p, n), VAL_CAP as int),
        bars_nonneg(bs) ==> bars_nonneg(vf_bars_upto(bs, w, p, n)),
    decreases n,
{
    if n <= 0 {
    } else {
        lemma_vf_bars_props(bs, w, p, n - 1);
        if bars_bounded(bs, VAL_CAP as int) {
            assert(kline_bounded(bs[n - 1], VAL_CAP as int));
        }
        if bars_nonneg(bs) {
            assert(bs[n - 1].volume >= 0 && bs[n - 1].amount >= 0);
        }
    }
}

} // verus!
