//! The dataset: one raw bar series, its session schedule and ticker, the
//! stack of active transforms, and the computation cache.  Every
//! transform and indicator request flows through it; identical
//! descriptors on the same dataset return the cached result without
//! recomputation, observable through an instrumentation counter.

use vstd::prelude::*;
use crate::clock::Interval;
use crate::dcon::{
    Convert, ConvertView, convert_bars, convert_mask, convert_wf, mask_view,
    bars_bounded, kline_bounded, opens_of, highs_of, lows_of, closes_of,
};
use crate::inter::{KlineData, KlineState};
use crate::fore::{align, align_row, count_fin, count_fin_exec, wrap_row, wrap_row_exec, ForeCalc, rank64, ffill64};
use crate::price::{PriceArc, PriceOri, bars_nonneg};
use crate::roll::{ema, ema64, roll_max64, roll_min64};
use crate::ta::{
    Ta, KlineType, ta_wf, ta_height, roll_apply, roll_apply64,
    rsi_kernel, rsi64, tr_kernel, tr64, lemma_tr_bounded, diff_kernel, diff64,
    macd64, kta_kernel, kta64, lemma_kta_bounded, dta64, jta64, jta_combine,
    eff_ratio_kernel, eff_ratio64, spread_kernel, spread64, rankma_kernel, rankma64,
    kday_ratio_kernel, kday_ratio64,
};
use crate::ticker::Ticker;
use crate::util::{bounded, copy_vv, vv_view, sat_add_count, VAL_CAP};
use crate::roll::EMA_CAP;

verus! {

/// What the whole transform stack of a descriptor produces from the base
/// series: the first stage of a composite feeds the second.
pub open spec fn chain_bars(c: ConvertView, base: Seq<KlineData>) -> Seq<KlineData>
    decreases c,
{
    match c {
        ConvertView::PreNow(pre, now) => convert_bars(*now, chain_bars(*pre, base)),
        _ => convert_bars(c, base),
    }
}

/// The finished mask the last stage of a descriptor records, over its own
/// input grid.
pub open spec fn chain_mask(c: ConvertView, base: Seq<KlineData>) -> Option<Seq<KlineState>>
    decreases c,
{
    match c {
        ConvertView::PreNow(pre, now) => convert_mask(*now, chain_bars(*pre, base)),
        _ => convert_mask(c, base),
    }
}

/// The bar column an indicator reads; the time and volume requests fall
/// back to the close column.
pub open spec fn kline_col(k: KlineType, bs: Seq<KlineData>) -> Seq<i64> {
    match k {
        KlineType::Open => opens_of(bs),
        KlineType::High => highs_of(bs),
        KlineType::Low => lows_of(bs),
        _ => closes_of(bs),
    }
}

/// What an indicator descriptor computes over a bar series: one or more
/// output columns, each the same length as the input.
pub open spec fn ta_eval(t: Ta, bs: Seq<KlineData>) -> Seq<Seq<i64>>
    decreases ta_height(t),
{
    match t {
        Ta::Kline(k) => seq![kline_col(k, bs)],
        Ta::Rsi(n) => seq![rsi64(closes_of(bs), n as int)],
        Ta::Tr => seq![tr64(highs_of(bs), lows_of(bs), closes_of(bs))],
        Ta::Atr(n) => seq![ema64(ta_eval(Ta::Tr, bs)[0], n as int)],
        Ta::Diff(a, b) => seq![diff64(closes_of(bs), a as int, b as int)],
        Ta::Macd(a, b, s) => seq![macd64(closes_of(bs), a as int, b as int, s as int)],
        Ta::Kta(n, m, _) => seq![kta64(closes_of(bs), n as int, m as int)],
        Ta::Dta(n, m, s) => seq![dta64(closes_of(bs), n as int, m as int, s as int)],
        Ta::Jta(n, m, s) => seq![jta64(closes_of(bs), n as int, m as int, s as int)],
        Ta::EffRatio(a, b) => seq![eff_ratio64(closes_of(bs), a as int, b as int)],
        Ta::Spread(a) => seq![spread64(closes_of(bs), a as int)],
        Ta::Rankma(a, b) => seq![rankma64(closes_of(bs), a as int, b as int)],
        Ta::KDayRatio(a) => seq![kday_ratio64(opens_of(bs), closes_of(bs), a as int)],
        Ta::Max(k, w) => seq![roll_max64(kline_col(k, bs), w as int)],
        Ta::Min(k, w) => seq![roll_min64(kline_col(k, bs), w as int)],
        Ta::RollTa(inner, f, w) => {
            let vs = ta_eval(*inner, bs);
            Seq::new(vs.len(), |i: int| roll_apply64(f, vs[i], w as int))
        },
    }
}

/// A raw series bound to the schedule that aggregated it and its ticker.
#[derive(Debug)]
pub struct Pcon {
    pub price: PriceOri,
    pub inter: Vec<Interval>,
    pub ticker: Ticker,
}

impl Pcon {
    /// The raw series is well formed and within the admissible value
    /// range.
    pub open spec fn wf(self) -> bool {
        &&& self.price.wf()
        &&& bars_bounded(self.price.bars(), VAL_CAP as int)
        &&& bars_nonneg(self.price.bars())
    }

    /// Binds a series to its schedule and ticker.
    pub fn from_price(price: PriceOri, inter: Vec<Interval>, ticker: Ticker) -> (r: Pcon)
        ensures
            r.price == price,
            r.inter == inter,
            r.ticker == ticker,
    {
        Pcon { price, inter, ticker }
    }

    /// The identity of this series: its schedule and ticker.
    pub fn ident(&self) -> (r: PconIdent)
        ensures
            r.inter@ == self.inter@,
            r.ticker == self.ticker,
    {
        PconIdent { inter: crate::clock::copy_intervals(&self.inter), ticker: self.ticker }
    }

    /// Publishes the raw series as a shared read-only base.
    pub fn publish(&self) -> (r: PriceArc)
        requires
            self.wf(),
        ensures
            r.wf(),
            r.bars() == self.price.bars(),
            r.finished is None,
            bars_bounded(r.bars(), VAL_CAP as int),
            bars_nonneg(r.bars()),
    {
        let n = self.price.date_time.len();
        let mut out = PriceOri::with_capacity(n);
        let mut i: usize = 0;
        while i < n
            invariant
                self.wf(),
                n == self.price.date_time@.len(),
                i <= n,
                out.wf(),
                out.bars() =~= self.price.bars().take(i as int),
            decreases n - i,
        {
            let b = self.price.get_bar(i);
            out.update(&b);
            proof {
                assert(self.price.bars().take(i as int).push(self.price.bars()[i as int])
                    =~= self.price.bars().take(i as int + 1));
            }
            i = i + 1;
        }
        proof {
            assert(self.price.bars().take(n as int) =~= self.price.bars());
        }
        let r = out.to_arc();
        proof {
            assert(r.bars() == self.price.bars());
        }
        r
    }

    /// Wraps the series into a fresh dataset: the identity transform in
    /// force, all caches empty, the instrumentation counter at zero.
    pub fn to_di(self) -> (r: DataInfo)
        ensures
            r.pcon == self,
            r.dcon@.len() == 1,
            r.dcon@[0]@ == ConvertView::Tf(0, 1),
            r.save_dcon@.len() == 0,
            r.save_ta@.len() == 0,
            r.compute_count == 0,
            self.wf() ==> r.wf(),
    {
        let mut dcon: Vec<Convert> = Vec::new();
        dcon.push(Convert::Tf(0, 1));
        DataInfo {
            pcon: self,
            dcon,
            compute_count: 0,
            save_dcon: Vec::new(),
            save_ta: Vec::new(),
        }
    }
}

/// The identity of a series: its schedule and ticker.
#[derive(Debug)]
pub struct PconIdent {
    pub inter: Vec<Interval>,
    pub ticker: Ticker,
}

impl PconIdent {
    pub fn new(inter: Vec<Interval>, ticker: Ticker) -> (r: PconIdent)
        ensures
            r.inter == inter,
            r.ticker == ticker,
    {
        PconIdent { inter, ticker }
    }
}

/// A cached transform result is keyed by its descriptor and carries
/// exactly what the transform chain produces from the base series.
pub open spec fn dcon_entry_ok(base: Seq<KlineData>, e: (Convert, PriceArc)) -> bool {
    &&& convert_wf(e.0@)
    &&& e.1.wf()
    &&& e.1.bars() == chain_bars(e.0@, base)
    &&& mask_view(e.1.finished) == chain_mask(e.0@, base)
    &&& bars_bounded(e.1.bars(), VAL_CAP as int)
    &&& bars_nonneg(e.1.bars())
}

/// A cached indicator result is keyed by the transform in force and the
/// indicator descriptor, and carries exactly what the indicator computes
/// over that transform's output.
pub open spec fn ta_entry_ok(base: Seq<KlineData>, e: (Convert, Ta, Vec<Vec<i64>>)) -> bool {
    &&& convert_wf(e.0@)
    &&& ta_wf(e.1)
    &&& vv_view(e.2) == ta_eval(e.1, chain_bars(e.0@, base))
}

/// The dataset.
#[derive(Debug)]
pub struct DataInfo {
    /// The raw series, its schedule and its ticker.
    pub pcon: Pcon,
    /// The stack of active transforms; the top is in force for the plain
    /// series accessors.
    pub dcon: Vec<Convert>,
    /// How many descriptor evaluations were actually computed rather than
    /// answered from a cache.
    pub compute_count: u64,
    /// The transform-result cache.
    pub save_dcon: Vec<(Convert, PriceArc)>,
    /// The indicator-result cache.
    pub save_ta: Vec<(Convert, Ta, Vec<Vec<i64>>)>,
}

/// The transform a descriptor equal to `c` is cached for.
pub open spec fn dcon_cached(di: DataInfo, c: ConvertView) -> bool {
    exists|k: int| 0 <= k < di.save_dcon@.len() && (#[trigger] di.save_dcon@[k]).0@ == c
}

/// An indicator equal to `t` over the transform `c` is cached.
pub open spec fn ta_cached(di: DataInfo, c: ConvertView, t: Ta) -> bool {
    exists|k: int| 0 <= k < di.save_ta@.len()
        && (#[trigger] di.save_ta@[k]).0@ == c && di.save_ta@[k].1 == t
}

/// The transform in force: the top of the stack.
pub open spec fn top_basis(di: DataInfo) -> ConvertView {
    di.dcon@[di.dcon@.len() - 1]@
}

/// The base bar series of a dataset.
pub open spec fn base_bars(di: DataInfo) -> Seq<KlineData> {
    di.pcon.price.bars()
}

impl DataInfo {
    /// The dataset invariant: a well-formed base series, a non-empty
    /// stack of valid transforms, and caches that hold exactly what their
    /// keys evaluate to.
    pub open spec fn wf(self) -> bool {
        &&& self.pcon.wf()
        &&& self.dcon@.len() >= 1
        &&& forall|k: int| 0 <= k < self.dcon@.len() ==> convert_wf(#[trigger] self.dcon@[k]@)
        &&& forall|k: int| 0 <= k < self.save_dcon@.len()
            ==> dcon_entry_ok(base_bars(self), #[trigger] self.save_dcon@[k])
        &&& forall|k: int| 0 <= k < self.save_ta@.len()
            ==> ta_entry_ok(base_bars(self), #[trigger] self.save_ta@[k])
    }

    /// The transform currently in force.
    pub fn last_dcon(&self) -> (r: Convert)
        requires
            self.wf(),
        ensures
            r@ == top_basis(*self),
    {
        self.dcon[self.dcon.len() - 1].clone()
    }

    /// Evaluates a transform descriptor against the base series,
    /// returning the published series of its chain.  A result already
    /// cached for a structurally equal descriptor is returned as a shared
    /// handle with no recomputation.
    pub fn calc(&mut self, c: &Convert) -> (r: PriceArc)
        requires
            old(self).wf(),
            convert_wf(c@),
        ensures
            final(self).wf(),
            final(self).pcon == old(self).pcon,
            final(self).dcon == old(self).dcon,
            final(self).save_ta@ == old(self).save_ta@,
            r.wf(),
            r.bars() == chain_bars(c@, base_bars(*old(self))),
            mask_view(r.finished) == chain_mask(c@, base_bars(*old(self))),
            bars_bounded(r.bars(), VAL_CAP as int),
            bars_nonneg(r.bars()),
            dcon_cached(*final(self), c@),
            dcon_cached(*old(self), c@) ==> (
                final(self).compute_count == old(self).compute_count
                && final(self).save_dcon@ == old(self).save_dcon@
            ),
            final(self).compute_count >= old(self).compute_count,
        decreases *c,
    {
        let n = self.save_dcon.len();
        let mut idx: usize = 0;
        while idx < n
            invariant
                self.wf(),
                n == self.save_dcon@.len(),
                idx <= n,
                forall|k: int| 0 <= k < idx ==> !((#[trigger] self.save_dcon@[k]).0@ == c@),
            decreases n - idx,
        {
            if self.save_dcon[idx].0 == *c {
                let r = self.save_dcon[idx].1.share_full();
                proof {
                    assert(dcon_entry_ok(base_bars(*self), self.save_dcon@[idx as int]));
                    assert(dcon_cached(*self, c@));
                }
                return r;
            }
            idx = idx + 1;
        }
        proof {
            assert(!dcon_cached(*self, c@));
        }
        let out = match c {
            Convert::PreNow(pre, _now) => {
                let pre_arc = self.calc(pre);
                c.convert(&pre_arc)
            },
            _ => {
                let base_arc = self.pcon.publish();
                c.convert(&base_arc)
            },
        };
        proof {
            assert(out.bars() == chain_bars(c@, base_bars(*self)));
            assert(mask_view(out.finished) == chain_mask(c@, base_bars(*self)));
        }
        self.compute_count = sat_add_count(self.compute_count, 1);
        let key = c.clone();
        let stored = out.share_full();
        let ghost pre_cache = self.save_dcon@;
        self.save_dcon.push((key, stored));
        proof {
            assert(self.save_dcon@ == pre_cache.push((key, stored)));
            assert(dcon_entry_ok(base_bars(*self), (key, stored)));
            assert forall|k: int| 0 <= k < self.save_dcon@.len()
                implies dcon_entry_ok(base_bars(*self), #[trigger] self.save_dcon@[k]) by {
                if k < pre_cache.len() {
                    assert(self.save_dcon@[k] == pre_cache[k]);
                }
            }
            assert((self.save_dcon@[self.save_dcon@.len() - 1]).0@ == c@);
            assert(dcon_cached(*self, c@));
        }
        out
    }

    /// Evaluates an indicator descriptor over the transform currently in
    /// force.  A result already cached for a structurally equal
    /// descriptor on the same transform is returned by copy with no
    /// recomputation; otherwise the kernels run, recursing through this
    /// dispatcher for every indicator the descriptor reads, and the
    /// result is cached.
    pub fn get_indicator(&mut self, t: &Ta) -> (r: Vec<Vec<i64>>)
        requires
            old(self).wf(),
            ta_wf(*t),
        ensures
            final(self).wf(),
            final(self).pcon == old(self).pcon,
            final(self).dcon == old(self).dcon,
            vv_view(r) == ta_eval(*t, chain_bars(top_basis(*old(self)), base_bars(*old(self)))),
            ta_cached(*final(self), top_basis(*old(self)), *t),
            ta_cached(*old(self), top_basis(*old(self)), *t) ==> (
                final(self).compute_count == old(self).compute_count
                && final(self).save_dcon@ == old(self).save_dcon@
                && final(self).save_ta@ == old(self).save_ta@
            ),
            final(self).compute_count >= old(self).compute_count,
        decreases ta_height(*t),
    {
        let basis = self.last_dcon();
        let n = self.save_ta.len();
        let mut idx: usize = 0;
        while idx < n
            invariant
                self.wf(),
                n == self.save_ta@.len(),
                idx <= n,
                basis@ == top_basis(*self),
                forall|k: int| 0 <= k < idx
                    ==> !((#[trigger] self.save_ta@[k]).0@ == basis@ && self.save_ta@[k].1 == *t),
            decreases n - idx,
        {
            if self.save_ta[idx].0 == basis && self.save_ta[idx].1 == *t {
                let r = copy_vv(&self.save_ta[idx].2);
                proof {
                    assert(ta_entry_ok(base_bars(*self), self.save_ta@[idx as int]));
                    assert(ta_cached(*self, basis@, *t));
                }
                return r;
            }
            idx = idx + 1;
        }
        proof {
            assert(!ta_cached(*self, basis@, *t));
        }
        let price = self.calc(&basis);
        let ghost bs = chain_bars(top_basis(*old(self)), base_bars(*old(self)));
        proof {
            assert(price.bars() == bs);
            assert forall|j: int| 0 <= j < closes_of(bs).len()
                implies -(VAL_CAP as int) <= #[trigger] closes_of(bs)[j] <= VAL_CAP as int by {
                assert(kline_bounded(bs[j], VAL_CAP as int));
            }
            assert(bounded(closes_of(bs), VAL_CAP as int));
            assert forall|j: int| 0 <= j < closes_of(bs).len()
                implies -EMA_CAP <= #[trigger] closes_of(bs)[j] <= EMA_CAP by {
                assert(kline_bounded(bs[j], VAL_CAP as int));
            }
            assert(bounded(closes_of(bs), EMA_CAP as int));
        }
        let v: Vec<Vec<i64>> = match t {
            Ta::Kline(k) => {
                let col = match k {
                    KlineType::Open => price.opens_vec(),
                    KlineType::High => price.highs_vec(),
                    KlineType::Low => price.lows_vec(),
                    _ => price.closes_vec(),
                };
                let mut v: Vec<Vec<i64>> = Vec::new();
                v.push(col);
                v
            },
            Ta::Rsi(nn) => {
                let c = price.closes_vec();
                let mut v: Vec<Vec<i64>> = Vec::new();
                v.push(rsi_kernel(&c, *nn));
                v
            },
            Ta::Tr => {
                let h = price.highs_vec();
                let l = price.lows_vec();
                let c = price.closes_vec();
                let mut v: Vec<Vec<i64>> = Vec::new();
                v.push(tr_kernel(&h, &l, &c));
                v
            },
            Ta::Atr(nn) => {
                let sub = self.get_indicator(&Ta::Tr);
                proof {
                    assert(top_basis(*self) == top_basis(*old(self)));
                    assert(base_bars(*self) == base_bars(*old(self)));
                    assert(vv_view(sub) == ta_eval(Ta::Tr, bs));
                    assert(vv_view(sub).len() == 1);
                    assert(sub@[0]@ == vv_view(sub)[0]);
                    assert(sub@[0]@ == tr64(highs_of(bs), lows_of(bs), closes_of(bs)));
                    assert forall|j: int| 0 <= j < highs_of(bs).len()
                        implies -(VAL_CAP as int) <= #[trigger] highs_of(bs)[j] <= VAL_CAP as int
                            && -(VAL_CAP as int) <= lows_of(bs)[j] <= VAL_CAP as int by {
                        assert(kline_bounded(bs[j], VAL_CAP as int));
                    }
                    lemma_tr_bounded(highs_of(bs), lows_of(bs), closes_of(bs), VAL_CAP as int);
                    assert forall|j: int| 0 <= j < sub@[0]@.len()
                        implies -EMA_CAP <= #[trigger] sub@[0]@[j] <= EMA_CAP by {
                        assert(-(2 * VAL_CAP as int) <= tr64(highs_of(bs), lows_of(bs), closes_of(bs))[j]
                            <= 2 * VAL_CAP as int);
                    }
                    assert(bounded(sub@[0]@, EMA_CAP as int));
                }
                let arr = ema(&sub[0], *nn);
                let mut v: Vec<Vec<i64>> = Vec::new();
                v.push(arr);
                v
            },
            Ta::Diff(a, b) => {
                let c = price.closes_vec();
                let mut v: Vec<Vec<i64>> = Vec::new();
                v.push(diff_kernel(&c, *a, *b));
                v
            },
            Ta::Macd(a, b, s) => {
                let sub = self.get_indicator(&Ta::Diff(*a, *b));
                proof {
                    assert(top_basis(*self) == top_basis(*old(self)));
                    assert(base_bars(*self) == base_bars(*old(self)));
                    assert(vv_view(sub) == ta_eval(Ta::Diff(*a, *b), bs));
                    assert(vv_view(sub).len() == 1);
                    assert(sub@[0]@ == vv_view(sub)[0]);
                    assert(sub@[0]@ == diff64(closes_of(bs), *a as int, *b as int));
                    assert forall|j: int| 0 <= j < sub@[0]@.len()
                        implies -EMA_CAP <= #[trigger] sub@[0]@[j] <= EMA_CAP by {
                        assert(sub@[0]@[j] == diff64(closes_of(bs), *a as int, *b as int)[j]);
                        assert(-VAL_CAP <= diff64(closes_of(bs), *a as int, *b as int)[j] <= VAL_CAP);
                    }
                    assert(bounded(sub@[0]@, EMA_CAP as int));
                }
                let arr = crate::ta::macd_combine(&sub[0], *s);
                proof {
                    assert(arr@ =~= macd64(closes_of(bs), *a as int, *b as int, *s as int));
                }
                let mut v: Vec<Vec<i64>> = Vec::new();
                v.push(arr);
                v
            },
            Ta::Kta(nn, m, _) => {
                let c = price.closes_vec();
                let mut v: Vec<Vec<i64>> = Vec::new();
                v.push(kta_kernel(&c, *nn, *m));
                v
            },
            Ta::Dta(nn, m, s) => {
                let sub = self.get_indicator(&Ta::Kta(*nn, *m, *s));
                proof {
                    assert(top_basis(*self) == top_basis(*old(self)));
                    assert(base_bars(*self) == base_bars(*old(self)));
                    assert(vv_view(sub) == ta_eval(Ta::Kta(*nn, *m, *s), bs));
                    assert(vv_view(sub).len() == 1);
                    assert(sub@[0]@ == vv_view(sub)[0]);
                    assert(sub@[0]@ == kta64(closes_of(bs), *nn as int, *m as int));
                    lemma_kta_bounded(closes_of(bs), *nn as int, *m as int);
                    assert forall|j: int| 0 <= j < sub@[0]@.len()
                        implies -EMA_CAP <= #[trigger] sub@[0]@[j] <= EMA_CAP by {
                        assert(-VAL_CAP <= kta64(closes_of(bs), *nn as int, *m as int)[j] <= VAL_CAP);
                    }
                    assert(bounded(sub@[0]@, EMA_CAP as int));
                }
                let arr = ema(&sub[0], *s);
                proof {
                    assert(arr@ =~= dta64(closes_of(bs), *nn as int, *m as int, *s as int));
                }
                let mut v: Vec<Vec<i64>> = Vec::new();
                v.push(arr);
                v
            },
            Ta::Jta(nn, m, s) => {
                let subk = self.get_indicator(&Ta::Kta(*nn, *m, *s));
                let subd = self.get_indicator(&Ta::Dta(*nn, *m, *s));
                proof {
                    assert(top_basis(*self) == top_basis(*old(self)));
                    assert(base_bars(*self) == base_bars(*old(self)));
                    assert(vv_view(subk) == ta_eval(Ta::Kta(*nn, *m, *s), bs));
                    assert(vv_view(subd) == ta_eval(Ta::Dta(*nn, *m, *s), bs));
                    assert(vv_view(subk).len() == 1);
                    assert(vv_view(subd).len() == 1);
                    assert(subk@[0]@ == vv_view(subk)[0]);
                    assert(subd@[0]@ == vv_view(subd)[0]);
                    assert(subk@[0]@ == kta64(closes_of(bs), *nn as int, *m as int));
                    assert(subd@[0]@ == dta64(closes_of(bs), *nn as int, *m as int, *s as int));
                }
                let arr = jta_combine(&subk[0], &subd[0]);
                proof {
                    assert(arr@ =~= jta64(closes_of(bs), *nn as int, *m as int, *s as int));
                }
                let mut v: Vec<Vec<i64>> = Vec::new();
                v.push(arr);
                v
            },
            Ta::EffRatio(a, b) => {
                let c = price.closes_vec();
                let mut v: Vec<Vec<i64>> = Vec::new();
                v.push(eff_ratio_kernel(&c, *a, *b));
                v
            },
            Ta::Spread(a) => {
                let c = price.closes_vec();
                let mut v: Vec<Vec<i64>> = Vec::new();
                v.push(spread_kernel(&c, *a));
                v
            },
            Ta::Rankma(a, b) => {
                let c = price.closes_vec();
                let mut v: Vec<Vec<i64>> = Vec::new();
                v.push(rankma_kernel(&c, *a, *b));
                v
            },
            Ta::KDayRatio(a) => {
                let o = price.opens_vec();
                let c = price.closes_vec();
                let mut v: Vec<Vec<i64>> = Vec::new();
                v.push(kday_ratio_kernel(&o, &c, *a));
                v
            },
            Ta::Max(k, w) => {
                let col = match k {
                    KlineType::Open => price.opens_vec(),
                    KlineType::High => price.highs_vec(),
                    KlineType::Low => price.lows_vec(),
                    _ => price.closes_vec(),
                };
                let mut v: Vec<Vec<i64>> = Vec::new();
                v.push(crate::roll::roll_max(&col, *w));
                v
            },
            Ta::Min(k, w) => {
                let col = match k {
                    KlineType::Open => price.opens_vec(),
                    KlineType::High => price.highs_vec(),
                    KlineType::Low => price.lows_vec(),
                    _ => price.closes_vec(),
                };
                let mut v: Vec<Vec<i64>> = Vec::new();
                v.push(crate::roll::roll_min(&col, *w));
                v
            },
            Ta::RollTa(inner, f, w) => {
                let sub = self.get_indicator(inner);
                proof {
                    assert(top_basis(*self) == top_basis(*old(self)));
                    assert(base_bars(*self) == base_bars(*old(self)));
                    assert(vv_view(sub) == ta_eval(**inner, bs));
                }
                let rows = sub.len();
                let mut v: Vec<Vec<i64>> = Vec::with_capacity(rows);
                let mut row: usize = 0;
                while row < rows
                    invariant
                        1 <= *w <= crate::util::WINDOW_CAP,
                        rows == sub@.len(),
                        vv_view(sub) == ta_eval(**inner, bs),
                        row <= rows,
                        v@.len() == row,
                        forall|j: int| 0 <= j < row
                            ==> #[trigger] v@[j]@ == roll_apply64(*f, ta_eval(**inner, bs)[j], *w as int),
                    decreases rows - row,
                {
                    let arr = roll_apply(*f, &sub[row], *w);
                    proof {
                        assert(sub@[row as int]@ == ta_eval(**inner, bs)[row as int]);
                    }
                    v.push(arr);
                    row = row + 1;
                }
                v
            },
        };
        proof {
            assert(vv_view(v) =~= ta_eval(*t, bs));
        }
        self.compute_count = sat_add_count(self.compute_count, 1);
        let key_ta = t.clone();
        let stored = copy_vv(&v);
        let ghost pre_cache = self.save_ta@;
        self.save_ta.push((basis, key_ta, stored));
        proof {
            assert(self.save_ta@ == pre_cache.push((basis, key_ta, stored)));
            assert(ta_entry_ok(base_bars(*self), (basis, key_ta, stored)));
            assert forall|k: int| 0 <= k < self.save_ta@.len()
                implies ta_entry_ok(base_bars(*self), #[trigger] self.save_ta@[k]) by {
                if k < pre_cache.len() {
                    assert(self.save_ta@[k] == pre_cache[k]);
                }
            }
            assert((self.save_ta@[self.save_ta@.len() - 1]).0@ == top_basis(*old(self)));
            assert(ta_cached(*self, top_basis(*old(self)), *t));
        }
        v
    }
}

/// One alignment stage: no mask is the identity; a mask aligns when the
/// computed row has exactly one value per finished entry, and fails
/// otherwise.
pub open spec fn align_stage(m: Option<Seq<KlineState>>, row: Seq<Option<i64>>) -> Option<Seq<Option<i64>>> {
    match m {
        None => Some(row),
        Some(mask) => if count_fin(mask) == row.len() {
            Some(align_row(mask, row))
        } else {
            None
        },
    }
}

/// Projecting a row computed on a descriptor's output grid back onto the
/// base grid: the outermost stage's mask is applied first, then the
/// alignment recurses through the first stage of each composite.
pub open spec fn chain_align(c: ConvertView, base: Seq<KlineData>, row: Seq<Option<i64>>) -> Option<Seq<Option<i64>>>
    decreases c,
{
    match c {
        ConvertView::PreNow(pre, now) => {
            match align_stage(convert_mask(*now, chain_bars(*pre, base)), row) {
                None => None,
                Some(r2) => chain_align(*pre, base, r2),
            }
        },
        _ => align_stage(convert_mask(c, base), row),
    }
}

/// Chain alignment of a whole table, row by row; it fails when any row
/// does not fit its grid.
pub open spec fn chain_align_rows(c: ConvertView, base: Seq<KlineData>, tbl: Seq<Seq<i64>>) -> Option<Seq<Seq<Option<i64>>>>
    decreases tbl.len(),
{
    if tbl.len() == 0 {
        Some(Seq::empty())
    } else {
        match (chain_align_rows(c, base, tbl.drop_last()), chain_align(c, base, wrap_row(tbl.last()))) {
            (Some(acc), Some(x)) => Some(acc.push(x)),
            _ => None,
        }
    }
}

/// The view of an optional aligned row.
pub open spec fn row_opt_view(r: Option<Vec<Option<i64>>>) -> Option<Seq<Option<i64>>> {
    match r {
        None => None,
        Some(v) => Some(v@),
    }
}

/// The view of an optional aligned table.
pub open spec fn tbl_opt_view(r: Option<Vec<Vec<Option<i64>>>>) -> Option<Seq<Seq<Option<i64>>>> {
    match r {
        None => None,
        Some(v) => Some(Seq::new(v@.len(), |i: int| v@[i]@)),
    }
}

/// A composite descriptor's chain produces exactly what its second stage
/// produces from its first stage's chain, and records that second
/// stage's mask; projecting back first undoes the second stage, then the
/// first.
pub proof fn lemma_composite_chain(a: ConvertView, b: ConvertView, base: Seq<KlineData>, row: Seq<Option<i64>>)
    ensures
        chain_bars(ConvertView::PreNow(Box::new(a), Box::new(b)), base)
            == convert_bars(b, chain_bars(a, base)),
        chain_mask(ConvertView::PreNow(Box::new(a), Box::new(b)), base)
            == convert_mask(b, chain_bars(a, base)),
        chain_align(ConvertView::PreNow(Box::new(a), Box::new(b)), base, row)
            == (match align_stage(convert_mask(b, chain_bars(a, base)), row) {
                None => None,
                Some(r2) => chain_align(a, base, r2),
            }),
{
}

/// Indicator evaluation depends only on the dataset's data: two datasets
/// holding the same base series under the same transform in force give
/// every descriptor the same value, however their caches, counters or
/// sibling datasets differ — so running a descriptor set over independent
/// clones in any order, or in parallel workers, yields identical
/// per-dataset results.
pub proof fn lemma_parallel_equivalence(d1: DataInfo, d2: DataInfo, t: Ta)
    requires
        base_bars(d1) == base_bars(d2),
        top_basis(d1) == top_basis(d2),
    ensures
        ta_eval(t, chain_bars(top_basis(d1), base_bars(d1)))
            == ta_eval(t, chain_bars(top_basis(d2), base_bars(d2))),
{
}

impl DataInfo {
    /// Projects one row, computed on the grid of `c`'s output, back onto
    /// the base grid, stage by stage through the recorded finished masks.
    /// Returns the aligned row, or nothing when the row does not fit a
    /// stage's grid.
    pub fn vert_back_row(&mut self, c: &Convert, row: Vec<Option<i64>>) -> (r: Option<Vec<Option<i64>>>)
        requires
            old(self).wf(),
            convert_wf(c@),
        ensures
            final(self).wf(),
            final(self).pcon == old(self).pcon,
            final(self).dcon == old(self).dcon,
            final(self).save_ta@ == old(self).save_ta@,
            row_opt_view(r) == chain_align(c@, base_bars(*old(self)), row@),
        decreases *c,
    {
        let price = self.calc(c);
        match &price.finished {
            None => {
                match c {
                    Convert::PreNow(pre, _now) => {
                        self.vert_back_row(pre, row)
                    },
                    _ => {
                        Some(row)
                    },
                }
            },
            Some(mask) => {
                let cnt = count_fin_exec(mask);
                if cnt != row.len() {
                    return None;
                }
                let aligned = align(mask, &row);
                match c {
                    Convert::PreNow(pre, _now) => {
                        self.vert_back_row(pre, aligned)
                    },
                    _ => {
                        Some(aligned)
                    },
                }
            },
        }
    }

    /// Projects a whole computed table back onto the base grid.
    pub fn vert_back(&mut self, c: &Convert, tbl: &Vec<Vec<i64>>) -> (r: Option<Vec<Vec<Option<i64>>>>)
        requires
            old(self).wf(),
            convert_wf(c@),
        ensures
            final(self).wf(),
            final(self).pcon == old(self).pcon,
            final(self).dcon == old(self).dcon,
            final(self).save_ta@ == old(self).save_ta@,
            tbl_opt_view(r) == chain_align_rows(c@, base_bars(*old(self)), vv_view(*tbl)),
    {
        let n = tbl.len();
        let mut out: Vec<Vec<Option<i64>>> = Vec::with_capacity(n);
        let mut i: usize = 0;
        proof {
            assert(vv_view(*tbl).take(0) =~= Seq::<Seq<i64>>::empty());
        }
        while i < n
            invariant
                self.wf(),
                convert_wf(c@),
                self.pcon == old(self).pcon,
                self.dcon == old(self).dcon,
                self.save_ta@ == old(self).save_ta@,
                n == tbl@.len(),
                i <= n,
                out@.len() == i,
                chain_align_rows(c@, base_bars(*old(self)), vv_view(*tbl).take(i as int))
                    == Some(Seq::new(i as nat, |j: int| out@[j]@)),
            decreases n - i,
        {
            let row = wrap_row_exec(&tbl[i]);
            let ghost pre_tbl = vv_view(*tbl).take(i as int);
            let a = self.vert_back_row(c, row);
            match a {
                None => {
                    proof {
                        lemma_chain_align_rows_fail(c@, base_bars(*old(self)), vv_view(*tbl), i as int);
                    }
                    return None;
                },
                Some(v) => {
                    out.push(v);
                    proof {
                        assert(vv_view(*tbl).take(i as int + 1).drop_last() =~= pre_tbl);
                        assert(vv_view(*tbl).take(i as int + 1).last() == tbl@[i as int]@);
                        assert(Seq::new(i as nat + 1, |j: int| out@[j]@)
                            =~= Seq::new(i as nat, |j: int| out@[j]@).push(v@));
                    }
                },
            }
            i = i + 1;
        }
        proof {
            assert(vv_view(*tbl).take(n as int) =~= vv_view(*tbl));
        }
        Some(out)
    }
}

/// If any row of a table fails to align, the whole table fails.
proof fn lemma_chain_align_rows_fail(c: ConvertView, base: Seq<KlineData>, tbl: Seq<Seq<i64>>, i: int)
    requires
        0 <= i < tbl.len(),
        chain_align(c, base, wrap_row(tbl[i])) is None,
    ensures
        chain_align_rows(c, base, tbl) is None,
    decreases tbl.len(),
{
    if tbl.len() > 0 {
        if i == tbl.len() - 1 {
            assert(tbl.last() == tbl[i]);
        } else {
            assert(tbl.drop_last()[i] == tbl[i]);
            lemma_chain_align_rows_fail(c, base, tbl.drop_last(), i);
        }
    }
}

/// Per-bar return of a bar series in ratio fixed point: the close's move
/// over the previous close, zero at the start, zero across a contract
/// change, zero on a non-positive previous close.
pub open spec fn profit_at(bs: Seq<KlineData>, i: int) -> i64 {
    if i == 0 {
        0i64
    } else if bs[i].ki.contract != bs[i - 1].ki.contract {
        0i64
    } else {
        ret_at(bs, i)
    }
}

/// Per-bar return ignoring contract changes.
pub open spec fn profit2_at(bs: Seq<KlineData>, i: int) -> i64 {
    if i == 0 {
        0i64
    } else {
        ret_at(bs, i)
    }
}

/// The close-over-close move in ratio fixed point.
pub open spec fn ret_at(bs: Seq<KlineData>, i: int) -> i64 {
    if bs[i - 1].close <= 0 {
        0i64
    } else {
        crate::util::clamp64(
            ((bs[i].close - bs[i - 1].close) * crate::util::RATIO_SCALE as int) / bs[i - 1].close as int)
    }
}

/// How the caches of a dataset may be cleared.
#[derive(Clone, Copy, PartialEq, Eq, Structural, Debug)]
pub enum CacheScope {
    All,
    Transform,
    Indicator,
}

impl DataInfo {
    /// Number of bars in the base series.
    pub fn len(&self) -> (r: usize)
        ensures
            r == base_bars(*self).len(),
    {
        self.pcon.price.date_time.len()
    }

    /// Whether the base series is empty.
    pub fn is_empty(&self) -> (r: bool)
        ensures
            r == (base_bars(*self).len() == 0),
    {
        self.pcon.price.date_time.len() == 0
    }

    /// The timestamps of the transform in force.
    pub fn date_time(&mut self) -> (r: std::sync::Arc<Vec<crate::clock::TimePoint>>)
        requires
            old(self).wf(),
        ensures
            final(self).wf(),
            final(self).pcon == old(self).pcon,
            final(self).dcon == old(self).dcon,
            r@ == crate::dcon::dates_of(chain_bars(top_basis(*old(self)), base_bars(*old(self)))),
    {
        let basis = self.last_dcon();
        let p = self.calc(&basis);
        proof {
            assert(p.date_time@ =~= crate::dcon::dates_of(p.bars()));
        }
        std::sync::Arc::clone(&p.date_time)
    }

    /// The open column of the transform in force.
    pub fn open(&mut self) -> (r: std::sync::Arc<Vec<i64>>)
        requires
            old(self).wf(),
        ensures
            final(self).wf(),
            final(self).pcon == old(self).pcon,
            final(self).dcon == old(self).dcon,
            r@ == opens_of(chain_bars(top_basis(*old(self)), base_bars(*old(self)))),
    {
        let basis = self.last_dcon();
        let p = self.calc(&basis);
        proof {
            assert(p.open@ =~= opens_of(p.bars()));
        }
        std::sync::Arc::clone(&p.open)
    }

    /// The high column of the transform in force.
    pub fn high(&mut self) -> (r: std::sync::Arc<Vec<i64>>)
        requires
            old(self).wf(),
        ensures
            final(self).wf(),
            final(self).pcon == old(self).pcon,
            final(self).dcon == old(self).dcon,
            r@ == highs_of(chain_bars(top_basis(*old(self)), base_bars(*old(self)))),
    {
        let basis = self.last_dcon();
        let p = self.calc(&basis);
        proof {
            assert(p.high@ =~= highs_of(p.bars()));
        }
        std::sync::Arc::clone(&p.high)
    }

    /// The low column of the transform in force.
    pub fn low(&mut self) -> (r: std::sync::Arc<Vec<i64>>)
        requires
            old(self).wf(),
        ensures
            final(self).wf(),
            final(self).pcon == old(self).pcon,
            final(self).dcon == old(self).dcon,
            r@ == lows_of(chain_bars(top_basis(*old(self)), base_bars(*old(self)))),
    {
        let basis = self.last_dcon();
        let p = self.calc(&basis);
        proof {
            assert(p.low@ =~= lows_of(p.bars()));
        }
        std::sync::Arc::clone(&p.low)
    }

    /// The close column of the transform in force.
    pub fn close(&mut self) -> (r: std::sync::Arc<Vec<i64>>)
        requires
            old(self).wf(),
        ensures
            final(self).wf(),
            final(self).pcon == old(self).pcon,
            final(self).dcon == old(self).dcon,
            r@ == closes_of(chain_bars(top_basis(*old(self)), base_bars(*old(self)))),
    {
        let basis = self.last_dcon();
        let p = self.calc(&basis);
        proof {
            assert(p.close@ =~= closes_of(p.bars()));
        }
        std::sync::Arc::clone(&p.close)
    }

    /// The volume column of the transform in force.
    pub fn volume(&mut self) -> (r: std::sync::Arc<Vec<i64>>)
        requires
            old(self).wf(),
        ensures
            final(self).wf(),
            final(self).pcon == old(self).pcon,
            final(self).dcon == old(self).dcon,
            r@ == crate::dcon::volumes_of(chain_bars(top_basis(*old(self)), base_bars(*old(self)))),
    {
        let basis = self.last_dcon();
        let p = self.calc(&basis);
        proof {
            assert(p.volume@ =~= crate::dcon::volumes_of(p.bars()));
        }
        std::sync::Arc::clone(&p.volume)
    }

    /// The amount column of the transform in force.
    pub fn amount(&mut self) -> (r: std::sync::Arc<Vec<i64>>)
        requires
            old(self).wf(),
        ensures
            final(self).wf(),
            final(self).pcon == old(self).pcon,
            final(self).dcon == old(self).dcon,
            r@ == crate::dcon::amounts_of(chain_bars(top_basis(*old(self)), base_bars(*old(self)))),
    {
        let basis = self.last_dcon();
        let p = self.calc(&basis);
        proof {
            assert(p.amount@ =~= crate::dcon::amounts_of(p.bars()));
        }
        std::sync::Arc::clone(&p.amount)
    }

    /// The requested bar column of the transform in force; the time and
    /// volume requests fall back to the close column.
    pub fn get_kline(&mut self, k: &KlineType) -> (r: std::sync::Arc<Vec<i64>>)
        requires
            old(self).wf(),
        ensures
            final(self).wf(),
            final(self).pcon == old(self).pcon,
            final(self).dcon == old(self).dcon,
            r@ == kline_col(*k, chain_bars(top_basis(*old(self)), base_bars(*old(self)))),
    {
        match k {
            KlineType::Open => self.open(),
            KlineType::High => self.high(),
            KlineType::Low => self.low(),
            _ => self.close(),
        }
    }

    /// Pushes a transform onto the stack, making it the one in force.
    pub fn push_dcon(&mut self, c: Convert)
        requires
            old(self).wf(),
            convert_wf(c@),
        ensures
            final(self).wf(),
            final(self).pcon == old(self).pcon,
            final(self).dcon@ == old(self).dcon@.push(c),
            top_basis(*final(self)) == c@,
    {
        self.dcon.push(c);
        proof {
            assert forall|k: int| 0 <= k < self.dcon@.len()
                implies convert_wf(#[trigger] self.dcon@[k]@) by {
                if k < old(self).dcon@.len() {
                    assert(self.dcon@[k] == old(self).dcon@[k]);
                }
            }
        }
    }

    /// Pops the transform in force, restoring the previous one; the
    /// bottom of the stack stays.
    pub fn pop_dcon(&mut self)
        requires
            old(self).wf(),
        ensures
            final(self).wf(),
            final(self).pcon == old(self).pcon,
            final(self).dcon@ == (if old(self).dcon@.len() > 1 {
                old(self).dcon@.drop_last()
            } else {
                old(self).dcon@
            }),
    {
        if self.dcon.len() > 1 {
            let ghost pre = self.dcon@;
            let _ = self.dcon.pop();
            proof {
                assert(self.dcon@ =~= pre.drop_last());
                assert forall|k: int| 0 <= k < self.dcon@.len()
                    implies convert_wf(#[trigger] self.dcon@[k]@) by {
                    assert(self.dcon@[k] == pre[k]);
                }
            }
        }
    }

    /// Clears the requested caches; the base series, the stack and the
    /// instrumentation counter stay.
    pub fn clear_cache(&mut self, scope: CacheScope)
        requires
            old(self).wf(),
        ensures
            final(self).wf(),
            final(self).pcon == old(self).pcon,
            final(self).dcon == old(self).dcon,
            final(self).compute_count == old(self).compute_count,
            (scope is All || scope is Transform) ==> final(self).save_dcon@.len() == 0,
            (scope is All || scope is Indicator) ==> final(self).save_ta@.len() == 0,
            scope is Transform ==> final(self).save_ta@ == old(self).save_ta@,
            scope is Indicator ==> final(self).save_dcon@ == old(self).save_dcon@,
    {
        match scope {
            CacheScope::All => {
                self.save_dcon = Vec::new();
                self.save_ta = Vec::new();
            },
            CacheScope::Transform => {
                self.save_dcon = Vec::new();
            },
            CacheScope::Indicator => {
                self.save_ta = Vec::new();
            },
        }
    }

    /// Clears every cache.
    pub fn clear(&mut self)
        requires
            old(self).wf(),
        ensures
            final(self).wf(),
            final(self).pcon == old(self).pcon,
            final(self).dcon == old(self).dcon,
            final(self).save_dcon@.len() == 0,
            final(self).save_ta@.len() == 0,
    {
        self.clear_cache(CacheScope::All);
    }

    /// A fresh dataset over the same bars: the identity transform in
    /// force, caches empty, the counter at zero.
    pub fn duplicate(&self) -> (r: DataInfo)
        requires
            self.wf(),
        ensures
            r.wf(),
            base_bars(r) == base_bars(*self),
            r.pcon.inter@ == self.pcon.inter@,
            r.pcon.ticker == self.pcon.ticker,
            r.dcon@.len() == 1,
            top_basis(r) == ConvertView::Tf(0, 1),
            r.save_dcon@.len() == 0,
            r.save_ta@.len() == 0,
            r.compute_count == 0,
    {
        let price = self.pcon.price.duplicate();
        let inter = crate::clock::copy_intervals(&self.pcon.inter);
        let pcon = Pcon { price, inter, ticker: self.pcon.ticker };
        pcon.to_di()
    }

    /// `n` independent fresh datasets over the same bars.
    pub fn repeat(&self, n: usize) -> (r: DataInfoList)
        requires
            self.wf(),
        ensures
            r.dil@.len() == n,
            forall|k: int| 0 <= k < n ==> (#[trigger] r.dil@[k]).wf()
                && base_bars(r.dil@[k]) == base_bars(*self)
                && top_basis(r.dil@[k]) == ConvertView::Tf(0, 1),
    {
        let mut dil: Vec<DataInfo> = Vec::with_capacity(n);
        let mut i: usize = 0;
        while i < n
            invariant
                self.wf(),
                i <= n,
                dil@.len() == i,
                forall|k: int| 0 <= k < i ==> (#[trigger] dil@[k]).wf()
                    && base_bars(dil@[k]) == base_bars(*self)
                    && top_basis(dil@[k]) == ConvertView::Tf(0, 1),
            decreases n - i,
        {
            dil.push(self.duplicate());
            i = i + 1;
        }
        DataInfoList { dil }
    }

    /// Per-bar returns of the transform in force, zero across contract
    /// changes.
    pub fn profit(&mut self) -> (r: Vec<i64>)
        requires
            old(self).wf(),
        ensures
            final(self).wf(),
            final(self).pcon == old(self).pcon,
            final(self).dcon == old(self).dcon,
            r@.len() == chain_bars(top_basis(*old(self)), base_bars(*old(self))).len(),
            forall|i: int| 0 <= i < r@.len()
                ==> #[trigger] r@[i] == profit_at(chain_bars(top_basis(*old(self)), base_bars(*old(self))), i),
    {
        let basis = self.last_dcon();
        let p = self.calc(&basis);
        let ghost bs = chain_bars(top_basis(*old(self)), base_bars(*old(self)));
        let n = p.len();
        let mut r: Vec<i64> = Vec::with_capacity(n);
        let mut i: usize = 0;
        while i < n
            invariant
                p.wf(),
                p.bars() == bs,
                n == bs.len(),
                i <= n,
                r@.len() == i,
                forall|j: int| 0 <= j < i ==> #[trigger] r@[j] == profit_at(bs, j),
            decreases n - i,
        {
            let b = p.get_bar(i);
            let v: i64 = if i == 0 {
                0
            } else {
                let prev = p.get_bar(i - 1);
                if b.ki.contract != prev.ki.contract {
                    0
                } else {
                    ret_exec(b.close, prev.close)
                }
            };
            proof {
                assert(v == profit_at(bs, i as int));
            }
            r.push(v);
            i = i + 1;
        }
        r
    }

    /// Per-bar returns of the transform in force, ignoring contract
    /// changes.
    pub fn profit2(&mut self) -> (r: Vec<i64>)
        requires
            old(self).wf(),
        ensures
            final(self).wf(),
            final(self).pcon == old(self).pcon,
            final(self).dcon == old(self).dcon,
            r@.len() == chain_bars(top_basis(*old(self)), base_bars(*old(self))).len(),
            forall|i: int| 0 <= i < r@.len()
                ==> #[trigger] r@[i] == profit2_at(chain_bars(top_basis(*old(self)), base_bars(*old(self))), i),
    {
        let basis = self.last_dcon();
        let p = self.calc(&basis);
        let ghost bs = chain_bars(top_basis(*old(self)), base_bars(*old(self)));
        let n = p.len();
        let mut r: Vec<i64> = Vec::with_capacity(n);
        let mut i: usize = 0;
        while i < n
            invariant
                p.wf(),
                p.bars() == bs,
                n == bs.len(),
                i <= n,
                r@.len() == i,
                forall|j: int| 0 <= j < i ==> #[trigger] r@[j] == profit2_at(bs, j),
            decreases n - i,
        {
            let b = p.get_bar(i);
            let v: i64 = if i == 0 {
                0
            } else {
                let prev = p.get_bar(i - 1);
                ret_exec(b.close, prev.close)
            };
            proof {
                assert(v == profit2_at(bs, i as int));
            }
            r.push(v);
            i = i + 1;
        }
        r
    }

    /// One price tick of this ticker as a share of the base series' last
    /// close, in ratio ten-thousandths; zero on an empty series or a
    /// non-positive close.
    pub fn tz_profit(&self) -> (r: i64)
        requires
            self.wf(),
        ensures
            r == tz_profit_spec(*self),
    {
        let n = self.pcon.price.close.len();
        if n == 0 {
            return 0;
        }
        let last_close = self.pcon.price.close[n - 1];
        if last_close <= 0 {
            return 0;
        }
        let info = self.pcon.ticker.info();
        proof {
            crate::ticker::lemma_info_ranges(self.pcon.ticker);
            assert(10000 * info.price_tick as int
                    <= last_close as int * (10000 * info.price_tick as int)) by (nonlinear_arith)
                requires last_close >= 1, info.price_tick >= 0;
            assert(-(last_close as int * (10000 * info.price_tick as int))
                    <= 10000 * info.price_tick as int) by (nonlinear_arith)
                requires last_close >= 1, info.price_tick >= 0;
            crate::util::lemma_div_bound(10000 * info.price_tick as int, last_close as int,
                10000 * info.price_tick as int);
        }
        let q = crate::util::div_floor_wide(10000 * info.price_tick as i128, last_close as i128);
        q as i64
    }
}

/// What `tz_profit` returns: ten thousand price ticks over the last
/// close.
pub open spec fn tz_profit_spec(di: DataInfo) -> int {
    let bs = base_bars(di);
    if bs.len() == 0 {
        0
    } else if bs[bs.len() - 1].close <= 0 {
        0
    } else {
        (10000 * crate::ticker::info_of(di.pcon.ticker).price_tick) / bs[bs.len() - 1].close as int
    }
}

/// The close-over-close move, executable form.
fn ret_exec(cur: i64, prev: i64) -> (r: i64)
    ensures
        r == (if prev <= 0 { 0i64 } else {
            crate::util::clamp64(((cur - prev) * crate::util::RATIO_SCALE as int) / prev as int)
        }),
{
    if prev <= 0 {
        0
    } else {
        let num: i128 = (cur as i128 - prev as i128) * crate::util::RATIO_SCALE as i128;
        proof {
            assert(-(prev as int * 100000000000000000000000000) <= num as int
                    <= prev as int * 100000000000000000000000000) by (nonlinear_arith)
                requires
                    prev >= 1,
                    -100000000000000000000000000 <= num as int <= 100000000000000000000000000;
            crate::util::lemma_div_bound(num as int, prev as int, 100000000000000000000000000);
        }
        let q = crate::util::div_floor_wide(num, prev as i128);
        crate::util::clamp_wide(q)
    }
}

/// A family of independent datasets.
#[derive(Debug)]
pub struct DataInfoList {
    pub dil: Vec<DataInfo>,
}

impl DataInfoList {
    /// The number of datasets.
    pub fn size(&self) -> (r: usize)
        ensures
            r == self.dil@.len(),
    {
        self.dil.len()
    }

    /// Clears the requested caches of every dataset; the series, stacks
    /// and counters stay.
    pub fn clear(&mut self, scope: CacheScope)
        requires
            forall|k: int| 0 <= k < old(self).dil@.len() ==> (#[trigger] old(self).dil@[k]).wf(),
        ensures
            final(self).dil@.len() == old(self).dil@.len(),
            forall|k: int| 0 <= k < final(self).dil@.len() ==> (#[trigger] final(self).dil@[k]).wf()
                && final(self).dil@[k].pcon == old(self).dil@[k].pcon
                && final(self).dil@[k].dcon == old(self).dil@[k].dcon
                && ((scope is All || scope is Transform) ==> final(self).dil@[k].save_dcon@.len() == 0)
                && ((scope is All || scope is Indicator) ==> final(self).dil@[k].save_ta@.len() == 0),
    {
        let n = self.dil.len();
        let mut i: usize = 0;
        while i < n
            invariant
                n == self.dil@.len(),
                i <= n,
                forall|k: int| 0 <= k < n ==> (#[trigger] self.dil@[k]).wf(),
                forall|k: int| 0 <= k < n ==> (#[trigger] self.dil@[k]).pcon == old(self).dil@[k].pcon
                    && self.dil@[k].dcon == old(self).dil@[k].dcon,
                forall|k: int| 0 <= k < i ==> (
                    ((scope is All || scope is Transform) ==> (#[trigger] self.dil@[k]).save_dcon@.len() == 0)
                    && ((scope is All || scope is Indicator) ==> self.dil@[k].save_ta@.len() == 0)),
            decreases n - i,
        {
            let mut d = self.dil.remove(i);
            d.clear_cache(scope);
            self.dil.insert(i, d);
            i = i + 1;
        }
    }

    /// The total number of base bars across all datasets, saturated at
    /// the machine word.
    pub fn total_kline_nums(&self) -> (r: usize)
        ensures
            r == total_bars_spec(self.dil@),
    {
        let n = self.dil.len();
        let mut acc: usize = 0;
        let mut i: usize = 0;
        proof {
            assert(self.dil@.take(0) =~= Seq::<DataInfo>::empty());
        }
        while i < n
            invariant
                n == self.dil@.len(),
                i <= n,
                acc == total_bars_spec(self.dil@.take(i as int)),
            decreases n - i,
        {
            proof {
                assert(self.dil@.take(i as int + 1).drop_last() =~= self.dil@.take(i as int));
                assert(self.dil@.take(i as int + 1).last() == self.dil@[i as int]);
            }
            let l = self.dil[i].len();
            acc = if acc > usize::MAX - l { usize::MAX } else { acc + l };
            i = i + 1;
        }
        proof {
            assert(self.dil@.take(n as int) =~= self.dil@);
        }
        acc
    }
}

/// The saturated total of base-bar counts.
pub open spec fn total_bars_spec(ds: Seq<DataInfo>) -> usize
    decreases ds.len(),
{
    if ds.len() == 0 {
        0usize
    } else {
        let rest = total_bars_spec(ds.drop_last());
        let l = base_bars(ds.last()).len();
        if rest + l > usize::MAX { usize::MAX } else { (rest + l) as usize }
    }
}

/// What a projected indicator evaluates to: the indicator over the
/// transform in force, post-processed by the projection combinator.
pub open spec fn fore_eval(t: Ta, fc: ForeCalc, basis: ConvertView, base: Seq<KlineData>) -> Option<Seq<Seq<Option<i64>>>> {
    let tbl = ta_eval(t, chain_bars(basis, base));
    match fc {
        ForeCalc::Rank(warm) => Some(Seq::new(tbl.len(), |i: int| rank64(tbl[i], warm as int))),
        ForeCalc::VertBack => chain_align_rows(basis, base, tbl),
        ForeCalc::VertBackFill => match chain_align_rows(basis, base, tbl) {
            None => None,
            Some(rs) => Some(Seq::new(rs.len(), |i: int| ffill64(rs[i]))),
        },
        ForeCalc::WithRank => Some(Seq::new(2 * tbl.len(), |i: int|
            if i % 2 == 0 { wrap_row(tbl[i / 2]) } else { rank64(tbl[i / 2], 0) })),
    }
}

/// A cached indicator entry holds exactly what recomputing its key would
/// produce: answering from the cache is indistinguishable from
/// evaluating again.
pub proof fn lemma_cache_idempotence(di: DataInfo, t: Ta, k: int)
    requires
        di.wf(),
        0 <= k < di.save_ta@.len(),
        di.save_ta@[k].1 == t,
    ensures
        vv_view(di.save_ta@[k].2) == ta_eval(t, chain_bars(di.save_ta@[k].0@, base_bars(di))),
{
    assert(ta_entry_ok(base_bars(di), di.save_ta@[k]));
}

impl DataInfo {
    /// Evaluates an indicator over the transform in force and projects
    /// the result: ranked in its own history, aligned back onto the base
    /// grid, aligned and forward filled, or interleaved with its rank.
    /// Returns nothing when a computed row does not fit its grid.
    pub fn calc_fore(&mut self, t: &Ta, fc: &ForeCalc) -> (r: Option<Vec<Vec<Option<i64>>>>)
        requires
            old(self).wf(),
            ta_wf(*t),
        ensures
            final(self).wf(),
            final(self).pcon == old(self).pcon,
            final(self).dcon == old(self).dcon,
            tbl_opt_view(r) == fore_eval(*t, *fc, top_basis(*old(self)), base_bars(*old(self))),
    {
        let rows = self.get_indicator(t);
        let ghost tbl = ta_eval(*t, chain_bars(top_basis(*old(self)), base_bars(*old(self))));
        proof {
            assert(vv_view(rows) == tbl);
        }
        match fc {
            ForeCalc::Rank(warm) => {
                let n = rows.len();
                let mut out: Vec<Vec<Option<i64>>> = Vec::with_capacity(n);
                let mut i: usize = 0;
                while i < n
                    invariant
                        n == rows@.len(),
                        vv_view(rows) == tbl,
                        i <= n,
                        out@.len() == i,
                        forall|j: int| 0 <= j < i ==> #[trigger] out@[j]@ == rank64(tbl[j], *warm as int),
                    decreases n - i,
                {
                    let rr = crate::fore::rank1d(&rows[i], *warm);
                    proof {
                        assert(rows@[i as int]@ == tbl[i as int]);
                    }
                    out.push(rr);
                    i = i + 1;
                }
                proof {
                    assert(Seq::new(out@.len(), |j: int| out@[j]@)
                        =~= Seq::new(tbl.len(), |j: int| rank64(tbl[j], *warm as int)));
                }
                Some(out)
            },
            ForeCalc::VertBack => {
                let basis = self.last_dcon();
                proof {
                    assert(basis@ == top_basis(*old(self)));
                    assert(base_bars(*self) == base_bars(*old(self)));
                }
                let r = self.vert_back(&basis, &rows);
                r
            },
            ForeCalc::VertBackFill => {
                let basis = self.last_dcon();
                proof {
                    assert(basis@ == top_basis(*old(self)));
                    assert(base_bars(*self) == base_bars(*old(self)));
                }
                let aligned = self.vert_back(&basis, &rows);
                match aligned {
                    None => None,
                    Some(vs) => {
                        let ghost avs = Seq::new(vs@.len(), |i: int| vs@[i]@);
                        let n = vs.len();
                        let mut out: Vec<Vec<Option<i64>>> = Vec::with_capacity(n);
                        let mut i: usize = 0;
                        while i < n
                            invariant
                                n == vs@.len(),
                                avs == Seq::new(vs@.len(), |ii: int| vs@[ii]@),
                                i <= n,
                                out@.len() == i,
                                forall|j: int| 0 <= j < i ==> #[trigger] out@[j]@ == ffill64(avs[j]),
                            decreases n - i,
                        {
                            let f = crate::fore::ffill(&vs[i]);
                            proof {
                                assert(vs@[i as int]@ == avs[i as int]);
                            }
                            out.push(f);
                            i = i + 1;
                        }
                        proof {
                            assert(Seq::new(out@.len(), |j: int| out@[j]@)
                                =~= Seq::new(avs.len(), |j: int| ffill64(avs[j])));
                        }
                        Some(out)
                    },
                }
            },
            ForeCalc::WithRank => {
                let n = rows.len();
                let cap = if n <= usize::MAX / 2 { 2 * n } else { n };
                let mut out: Vec<Vec<Option<i64>>> = Vec::with_capacity(cap);
                let mut i: usize = 0;
                while i < n
                    invariant
                        n == rows@.len(),
                        vv_view(rows) == tbl,
                        i <= n,
                        out@.len() == 2 * i,
                        forall|j: int| 0 <= j < 2 * i ==> #[trigger] out@[j]@
                            == (if j % 2 == 0 { wrap_row(tbl[j / 2]) } else { rank64(tbl[j / 2], 0) }),
                    decreases n - i,
                {
                    proof {
                        assert(rows@[i as int]@ == tbl[i as int]);
                    }
                    let wrapped = wrap_row_exec(&rows[i]);
                    out.push(wrapped);
                    let ranked = crate::fore::rank1d(&rows[i], 0);
                    out.push(ranked);
                    proof {
                        assert((2 * i as int) / 2 == i as int);
                        assert((2 * i as int + 1) / 2 == i as int);
                    }
                    i = i + 1;
                }
                proof {
                    assert(Seq::new(out@.len(), |j: int| out@[j]@)
                        =~= Seq::new(2 * tbl.len(), |j: int|
                            if j % 2 == 0 { wrap_row(tbl[j / 2]) } else { rank64(tbl[j / 2], 0) }));
                }
                Some(out)
            },
        }
    }
}

} // verus!
