//! Price series containers: the owned tick store, the owned bar store,
//! and the shared read-only bar series every transform and indicator
//! works on.  A series is a family of parallel arrays of equal length;
//! the array index is the time coordinate of every derived series.

use vstd::prelude::*;
use std::sync::Arc;
use crate::clock::{TimePoint, Interval};
use crate::inter::{
    KlineData, KlineInfo, KlineState, KlineStateInter, TickData,
    init_model, inter_step_tick, inter_step_bar, inter_wf, model_of,
    model_step_tick, model_step_bar, model_emits, model_bars_tick,
};

verus! {

/// Every tick carries non-negative volume and amount.
pub open spec fn ticks_nonneg(ts: Seq<TickData>) -> bool {
    forall|i: int| 0 <= i < ts.len() ==> #[trigger] ts[i].volume >= 0 && ts[i].amount >= 0
}

/// Every bar carries non-negative volume and amount.
pub open spec fn bars_nonneg(bs: Seq<KlineData>) -> bool {
    forall|i: int| 0 <= i < bs.len() ==> #[trigger] bs[i].volume >= 0 && bs[i].amount >= 0
}

/// Every tick's trade price lies in `[-b, b]`.
pub open spec fn ticks_bounded(ts: Seq<TickData>, b: int) -> bool {
    forall|i: int| 0 <= i < ts.len() ==> -b <= #[trigger] ts[i].last_price <= b
}

/// One aggregation step keeps the accumulator's prices bounded and its
/// volume and amount non-negative.
pub proof fn lemma_step_tick_props(md: crate::inter::InterModel, ivs: Seq<crate::clock::Interval>, t: TickData, cap: int)
    requires
        crate::dcon::kline_bounded(md.kws.data, cap),
        md.kws.data.volume >= 0,
        md.kws.data.amount >= 0,
        -cap <= t.last_price <= cap,
        t.volume >= 0,
        t.amount >= 0,
        cap >= 0,
    ensures
        crate::dcon::kline_bounded(model_step_tick(md, ivs, t).kws.data, cap),
        model_step_tick(md, ivs, t).kws.data.volume >= 0,
        model_step_tick(md, ivs, t).kws.data.amount >= 0,
{
}

/// The owned store of raw ticks, one parallel array per field.
#[derive(Clone, Debug, PartialEq)]
pub struct PriceTick {
    pub date_time: Vec<TimePoint>,
    pub last_price: Vec<i64>,
    pub open: Vec<i64>,
    pub high: Vec<i64>,
    pub low: Vec<i64>,
    pub close: Vec<i64>,
    pub pre_close: Vec<i64>,
    pub open_interest: Vec<i64>,
    pub volume: Vec<i64>,
    pub amount: Vec<i64>,
    pub bid_price1: Vec<i64>,
    pub ask_price1: Vec<i64>,
    pub bid_volume1: Vec<i64>,
    pub ask_volume1: Vec<i64>,
    pub contract: Vec<i32>,
}

impl PriceTick {
    /// All parallel arrays have the same length.
    pub open spec fn wf(self) -> bool {
        &&& self.last_price@.len() == self.date_time@.len()
        &&& self.open@.len() == self.date_time@.len()
        &&& self.high@.len() == self.date_time@.len()
        &&& self.low@.len() == self.date_time@.len()
        &&& self.close@.len() == self.date_time@.len()
        &&& self.pre_close@.len() == self.date_time@.len()
        &&& self.open_interest@.len() == self.date_time@.len()
        &&& self.volume@.len() == self.date_time@.len()
        &&& self.amount@.len() == self.date_time@.len()
        &&& self.bid_price1@.len() == self.date_time@.len()
        &&& self.ask_price1@.len() == self.date_time@.len()
        &&& self.bid_volume1@.len() == self.date_time@.len()
        &&& self.ask_volume1@.len() == self.date_time@.len()
        &&& self.contract@.len() == self.date_time@.len()
    }

    /// The tick stored at position `i`.
    pub open spec fn tick_at(self, i: int) -> TickData {
        TickData {
            date_time: self.date_time@[i],
            last_price: self.last_price@[i],
            open: self.open@[i],
            high: self.high@[i],
            low: self.low@[i],
            close: self.close@[i],
            pre_close: self.pre_close@[i],
            open_interest: self.open_interest@[i],
            volume: self.volume@[i],
            amount: self.amount@[i],
            bid_price1: self.bid_price1@[i],
            ask_price1: self.ask_price1@[i],
            bid_volume1: self.bid_volume1@[i],
            ask_volume1: self.ask_volume1@[i],
            contract: self.contract@[i],
        }
    }

    /// The store as the sequence of ticks it holds.
    pub open spec fn ticks(self) -> Seq<TickData> {
        Seq::new(self.date_time@.len(), |i: int| self.tick_at(i))
    }

    /// An empty store with room for `i` ticks.
    pub fn with_capacity(i: usize) -> (r: PriceTick)
        ensures
            r.wf(),
            r.ticks() =~= Seq::<TickData>::empty(),
    {
        PriceTick {
            date_time: Vec::with_capacity(i),
            last_price: Vec::with_capacity(i),
            open: Vec::with_capacity(i),
            high: Vec::with_capacity(i),
            low: Vec::with_capacity(i),
            close: Vec::with_capacity(i),
            pre_close: Vec::with_capacity(i),
            open_interest: Vec::with_capacity(i),
            volume: Vec::with_capacity(i),
            amount: Vec::with_capacity(i),
            bid_price1: Vec::with_capacity(i),
            ask_price1: Vec::with_capacity(i),
            bid_volume1: Vec::with_capacity(i),
            ask_volume1: Vec::with_capacity(i),
            contract: Vec::with_capacity(i),
        }
    }

    /// Appends one tick.
    pub fn update(&mut self, t: &TickData)
        requires
            old(self).wf(),
        ensures
            final(self).wf(),
            final(self).ticks() =~= old(self).ticks().push(*t),
    {
        self.date_time.push(t.date_time);
        self.last_price.push(t.last_price);
        self.open.push(t.open);
        self.high.push(t.high);
        self.low.push(t.low);
        self.close.push(t.close);
        self.pre_close.push(t.pre_close);
        self.open_interest.push(t.open_interest);
        self.volume.push(t.volume);
        self.amount.push(t.amount);
        self.bid_price1.push(t.bid_price1);
        self.ask_price1.push(t.ask_price1);
        self.bid_volume1.push(t.bid_volume1);
        self.ask_volume1.push(t.ask_volume1);
        self.contract.push(t.contract);
    }

    /// Moves every tick of `price` onto the end of `self`.
    pub fn cat(&mut self, price: &mut PriceTick)
        requires
            old(self).wf(),
            old(price).wf(),
        ensures
            final(self).wf(),
            final(self).ticks() =~= old(self).ticks() + old(price).ticks(),
            final(price).wf(),
            final(price).ticks() =~= Seq::<TickData>::empty(),
    {
        self.date_time.append(&mut price.date_time);
        self.last_price.append(&mut price.last_price);
        self.open.append(&mut price.open);
        self.high.append(&mut price.high);
        self.low.append(&mut price.low);
        self.close.append(&mut price.close);
        self.pre_close.append(&mut price.pre_close);
        self.open_interest.append(&mut price.open_interest);
        self.volume.append(&mut price.volume);
        self.amount.append(&mut price.amount);
        self.bid_price1.append(&mut price.bid_price1);
        self.ask_price1.append(&mut price.ask_price1);
        self.bid_volume1.append(&mut price.bid_volume1);
        self.ask_volume1.append(&mut price.ask_volume1);
        self.contract.append(&mut price.contract);
    }

    /// The store as a vector of tick records.
    pub fn to_tick_data(&self) -> (r: Vec<TickData>)
        requires
            self.wf(),
        ensures
            r@ =~= self.ticks(),
    {
        let n = self.date_time.len();
        let mut r: Vec<TickData> = Vec::with_capacity(n);
        let mut i: usize = 0;
        while i < n
            invariant
                self.wf(),
                n == self.date_time@.len(),
                i <= n,
                r@ =~= self.ticks().take(i as int),
            decreases n - i,
        {
            r.push(self.get_tick(i));
            proof {
                assert(r@ =~= self.ticks().take(i as int + 1));
            }
            i = i + 1;
        }
        proof {
            assert(self.ticks().take(n as int) =~= self.ticks());
        }
        r
    }

    /// The tick at position `i`.
    pub fn get_tick(&self, i: usize) -> (t: TickData)
        requires
            self.wf(),
            i < self.date_time@.len(),
        ensures
            t == self.ticks()[i as int],
    {
        TickData {
            date_time: self.date_time[i],
            last_price: self.last_price[i],
            open: self.open[i],
            high: self.high[i],
            low: self.low[i],
            close: self.close[i],
            pre_close: self.pre_close[i],
            open_interest: self.open_interest[i],
            volume: self.volume[i],
            amount: self.amount[i],
            bid_price1: self.bid_price1[i],
            ask_price1: self.ask_price1[i],
            bid_volume1: self.bid_volume1[i],
            ask_volume1: self.ask_volume1[i],
            contract: self.contract[i],
        }
    }

    /// Aggregates the tick stream and wraps the bars into a fresh
    /// dataset under the given schedule and ticker.
    pub fn to_di(&self, intervals: Vec<Interval>, ticker: crate::ticker::Ticker) -> (r: crate::di::DataInfo)
        requires
            self.wf(),
            intervals@.len() > 0,
            ticks_nonneg(self.ticks()),
            ticks_bounded(self.ticks(), crate::util::VAL_CAP as int),
        ensures
            r.wf(),
            crate::di::base_bars(r) == model_bars_tick(init_model(intervals@), intervals@, self.ticks()),
            r.pcon.ticker == ticker,
            r.compute_count == 0,
    {
        let price = self.to_price_ori(&intervals);
        crate::di::Pcon::from_price(price, intervals, ticker).to_di()
    }

    /// Rebuilds a store from a slice of tick records.
    pub fn from_tick_data(tick_data: &Vec<TickData>) -> (r: PriceTick)
        ensures
            r.wf(),
            r.ticks() =~= tick_data@,
    {
        let mut price_tick = PriceTick::with_capacity(tick_data.len());
        let n = tick_data.len();
        let mut i: usize = 0;
        while i < n
            invariant
                price_tick.wf(),
                n == tick_data@.len(),
                i <= n,
                price_tick.ticks() =~= tick_data@.take(i as int),
            decreases n - i,
        {
            price_tick.update(&tick_data[i]);
            proof {
                assert(tick_data@.take(i as int).push(tick_data@[i as int]) =~= tick_data@.take(i as int + 1));
            }
            i = i + 1;
        }
        proof {
            assert(tick_data@.take(n as int) =~= tick_data@);
        }
        price_tick
    }

    /// Aggregates the tick stream into bars under the given schedule.
    /// The result is exactly the bar sequence of the aggregation state
    /// machine run over the stream: same ticks, same schedule, same bars.
    pub fn to_price_ori(&self, intervals: &Vec<Interval>) -> (res: PriceOri)
        requires
            self.wf(),
            intervals@.len() > 0,
            ticks_nonneg(self.ticks()),
            ticks_bounded(self.ticks(), crate::util::VAL_CAP as int),
        ensures
            res.wf(),
            res.bars() == model_bars_tick(init_model(intervals@), intervals@, self.ticks()),
            crate::dcon::bars_bounded(res.bars(), crate::util::VAL_CAP as int),
            bars_nonneg(res.bars()),
    {
        let ghost ivs = intervals@;
        let ghost ts = self.ticks();
        let mut machine = KlineStateInter::from_intervals(intervals.clone());
        let mut res = PriceOri::with_capacity(self.date_time.len());
        let n = self.date_time.len();
        let mut i: usize = 0;
        proof {
            assert(ts.skip(0) =~= ts);
        }
        while i < n
            invariant
                self.wf(),
                res.wf(),
                n == ts.len(),
                i <= n,
                machine.intervals@ == ivs,
                inter_wf(machine),
                ts == self.ticks(),
                ticks_nonneg(ts),
                ticks_bounded(ts, crate::util::VAL_CAP as int),
                crate::dcon::kline_bounded(machine.kline_state.data, crate::util::VAL_CAP as int),
                crate::dcon::bars_bounded(res.bars(), crate::util::VAL_CAP as int),
                bars_nonneg(res.bars()),
                res.bars() + model_bars_tick(model_of(machine), ivs, ts.skip(i as int))
                    =~= model_bars_tick(init_model(ivs), ivs, ts),
            decreases n - i,
        {
            let t = self.get_tick(i);
            proof {
                assert(ts.skip(i as int)[0] == ts[i as int]);
                assert(ts.skip(i as int).drop_first() =~= ts.skip(i as int + 1));
                assert(-(crate::util::VAL_CAP as int) <= ts[i as int].last_price <= crate::util::VAL_CAP as int);
                assert(ts[i as int].volume >= 0 && ts[i as int].amount >= 0);
                lemma_step_tick_props(model_of(machine), ivs, t, crate::util::VAL_CAP as int);
            }
            let ghost bars_before = res.bars();
            let state = machine.step_emit_tick(&t, &mut res);
            proof {
                if model_emits(model_of(machine)) {
                    assert(res.bars() =~= bars_before.push(machine.kline_state.data));
                }
            }
            i = i + 1;
        }
        proof {
            assert(ts.skip(n as int).len() == 0);
            assert(res.bars() + Seq::<KlineData>::empty() =~= res.bars());
        }
        res
    }
}

impl KlineStateInter {
    /// Feeds one tick through the machine and appends the finished bar, if
    /// any, to `price`; returns the tick's classification, the entry this
    /// tick adds to the finished mask.
    pub fn step_emit_tick(&mut self, t: &TickData, price: &mut PriceOri) -> (r: KlineState)
        requires
            inter_wf(*old(self)),
            t.volume >= 0,
            t.amount >= 0,
            old(price).wf(),
        ensures
            *final(self) == inter_step_tick(*old(self), *t),
            final(self).intervals == old(self).intervals,
            model_of(*final(self)) == model_step_tick(model_of(*old(self)), old(self).intervals@, *t),
            r == final(self).kline_state.last,
            final(price).wf(),
            final(price).bars() == (if model_emits(model_of(*final(self))) {
                old(price).bars().push(final(self).kline_state.data)
            } else {
                old(price).bars()
            }),
            final(price).immut_info == old(price).immut_info,
            inter_wf(*final(self)),
    {
        self.update_tick(t);
        if let KlineState::Finished = self.kline_state.last {
            price.update(&self.kline_state.data);
        }
        self.kline_state.last
    }

    /// Feeds one sub-bar through the machine and appends the finished bar,
    /// if any, to `price`; returns the classification.
    pub fn step_emit_bar(&mut self, b: &KlineData, price: &mut PriceOri) -> (r: KlineState)
        requires
            inter_wf(*old(self)),
            b.volume >= 0,
            b.amount >= 0,
            old(price).wf(),
        ensures
            *final(self) == inter_step_bar(*old(self), *b),
            final(self).intervals == old(self).intervals,
            model_of(*final(self)) == model_step_bar(model_of(*old(self)), old(self).intervals@, *b),
            r == final(self).kline_state.last,
            final(price).wf(),
            final(price).bars() == (if model_emits(model_of(*final(self))) {
                old(price).bars().push(final(self).kline_state.data)
            } else {
                old(price).bars()
            }),
            final(price).immut_info == old(price).immut_info,
            inter_wf(*final(self)),
    {
        self.update_bar(b);
        if let KlineState::Finished = self.kline_state.last {
            price.update(&self.kline_state.data);
        }
        self.kline_state.last
    }
}

/// The streaming ingestion step: feeds one tick through a machine and
/// appends the finished bar, if any; the returned classification is the
/// tick's finished-mask entry.
impl crate::inter::KlineWithState {
    /// Applies the pending classification to a tick and appends the bar
    /// it completes, if any, to `price`.
    pub fn update_to(&mut self, t: &TickData, price: &mut PriceOri)
        requires
            old(self).data.volume >= 0,
            old(self).data.amount >= 0,
            t.volume >= 0,
            t.amount >= 0,
            old(price).wf(),
        ensures
            *final(self) == crate::inter::kws_step_tick(*old(self), *t),
            final(price).wf(),
            final(price).bars() == (if final(self).last is Finished {
                old(price).bars().push(final(self).data)
            } else {
                old(price).bars()
            }),
    {
        self.update_tick(t);
        if let KlineState::Finished = self.last {
            price.update(&self.data);
        }
    }
}

/// The owned store of aggregated bars, one parallel array per field, plus
/// optional per-bar side channels.
#[derive(Clone, Debug, PartialEq)]
pub struct PriceOri {
    pub date_time: Vec<TimePoint>,
    pub open: Vec<i64>,
    pub high: Vec<i64>,
    pub low: Vec<i64>,
    pub close: Vec<i64>,
    pub volume: Vec<i64>,
    pub amount: Vec<i64>,
    pub ki: Vec<KlineInfo>,
    pub immut_info: Vec<Vec<Vec<i64>>>,
}

impl PriceOri {
    /// All parallel arrays have the same length.
    pub open spec fn wf(self) -> bool {
        &&& self.open@.len() == self.date_time@.len()
        &&& self.high@.len() == self.date_time@.len()
        &&& self.low@.len() == self.date_time@.len()
        &&& self.close@.len() == self.date_time@.len()
        &&& self.volume@.len() == self.date_time@.len()
        &&& self.amount@.len() == self.date_time@.len()
        &&& self.ki@.len() == self.date_time@.len()
    }

    /// The bar stored at position `i`.
    pub open spec fn bar_at(self, i: int) -> KlineData {
        KlineData {
            date_time: self.date_time@[i],
            open: self.open@[i],
            high: self.high@[i],
            low: self.low@[i],
            close: self.close@[i],
            volume: self.volume@[i],
            amount: self.amount@[i],
            ki: self.ki@[i],
        }
    }

    /// The store as the sequence of bars it holds.
    pub open spec fn bars(self) -> Seq<KlineData> {
        Seq::new(self.date_time@.len(), |i: int| self.bar_at(i))
    }

    /// An empty store with room for `i` bars.
    pub fn with_capacity(i: usize) -> (r: PriceOri)
        ensures
            r.wf(),
            r.bars() =~= Seq::<KlineData>::empty(),
            r.immut_info@ =~= Seq::<Vec<Vec<i64>>>::empty(),
    {
        PriceOri {
            date_time: Vec::with_capacity(i),
            open: Vec::with_capacity(i),
            high: Vec::with_capacity(i),
            low: Vec::with_capacity(i),
            close: Vec::with_capacity(i),
            volume: Vec::with_capacity(i),
            amount: Vec::with_capacity(i),
            ki: Vec::with_capacity(i),
            immut_info: Vec::new(),
        }
    }

    /// Appends one bar; the side channels are untouched.
    pub fn update(&mut self, d: &KlineData)
        requires
            old(self).wf(),
        ensures
            final(self).wf(),
            final(self).bars() =~= old(self).bars().push(*d),
            final(self).immut_info == old(self).immut_info,
    {
        self.date_time.push(d.date_time);
        self.open.push(d.open);
        self.high.push(d.high);
        self.low.push(d.low);
        self.close.push(d.close);
        self.volume.push(d.volume);
        self.amount.push(d.amount);
        self.ki.push(d.ki);
    }

    /// Moves every bar of `price` onto the end of `self`.
    pub fn cat(&mut self, price: &mut PriceOri)
        requires
            old(self).wf(),
            old(price).wf(),
        ensures
            final(self).wf(),
            final(self).bars() =~= old(self).bars() + old(price).bars(),
            final(self).immut_info == old(self).immut_info,
    {
        self.date_time.append(&mut price.date_time);
        self.open.append(&mut price.open);
        self.high.append(&mut price.high);
        self.low.append(&mut price.low);
        self.close.append(&mut price.close);
        self.volume.append(&mut price.volume);
        self.amount.append(&mut price.amount);
        self.ki.append(&mut price.ki);
    }

    /// The bar at position `i`.
    pub fn get_bar(&self, i: usize) -> (d: KlineData)
        requires
            self.wf(),
            i < self.date_time@.len(),
        ensures
            d == self.bars()[i as int],
    {
        KlineData {
            date_time: self.date_time[i],
            open: self.open[i],
            high: self.high[i],
            low: self.low[i],
            close: self.close[i],
            volume: self.volume[i],
            amount: self.amount[i],
            ki: self.ki[i],
        }
    }

    /// The store as a vector of bar records.
    pub fn to_kline_data(&self) -> (r: Vec<KlineData>)
        requires
            self.wf(),
        ensures
            r@ =~= self.bars(),
    {
        let n = self.date_time.len();
        let mut r: Vec<KlineData> = Vec::with_capacity(n);
        let mut i: usize = 0;
        while i < n
            invariant
                self.wf(),
                n == self.date_time@.len(),
                i <= n,
                r@ =~= self.bars().take(i as int),
            decreases n - i,
        {
            r.push(self.get_bar(i));
            proof {
                assert(r@ =~= self.bars().take(i as int + 1));
            }
            i = i + 1;
        }
        proof {
            assert(self.bars().take(n as int) =~= self.bars());
        }
        r
    }

    /// A fresh store holding the same bars; the side channels are not
    /// carried over.
    pub fn duplicate(&self) -> (r: PriceOri)
        requires
            self.wf(),
        ensures
            r.wf(),
            r.bars() == self.bars(),
            r.immut_info@.len() == 0,
    {
        let n = self.date_time.len();
        let mut r = PriceOri::with_capacity(n);
        let mut i: usize = 0;
        while i < n
            invariant
                self.wf(),
                r.wf(),
                n == self.date_time@.len(),
                i <= n,
                r.immut_info@.len() == 0,
                r.bars() =~= self.bars().take(i as int),
            decreases n - i,
        {
            let b = self.get_bar(i);
            r.update(&b);
            proof {
                assert(self.bars().take(i as int).push(self.bars()[i as int]) =~= self.bars().take(i as int + 1));
            }
            i = i + 1;
        }
        proof {
            assert(self.bars().take(n as int) =~= self.bars());
        }
        r
    }

    /// Publishes the store as a shared read-only series with no mask.
    pub fn to_arc(self) -> (r: PriceArc)
        ensures
            r.date_time@ == self.date_time@,
            r.open@ == self.open@,
            r.high@ == self.high@,
            r.low@ == self.low@,
            r.close@ == self.close@,
            r.volume@ == self.volume@,
            r.amount@ == self.amount@,
            r.ki@ == self.ki@,
            r.finished == Option::<Vec<KlineState>>::None,
            r.bars() == self.bars(),
            self.wf() ==> r.wf(),
    {
        let immut_info = arc_immut_info(self.immut_info);
        PriceArc {
            date_time: Arc::new(self.date_time),
            open: Arc::new(self.open),
            high: Arc::new(self.high),
            low: Arc::new(self.low),
            close: Arc::new(self.close),
            volume: Arc::new(self.volume),
            amount: Arc::new(self.amount),
            ki: Arc::new(self.ki),
            immut_info,
            finished: None,
        }
    }

    /// Publishes the store together with the finished mask its producing
    /// transform recorded.
    pub fn to_arc_with_mask(self, finished: Vec<KlineState>) -> (r: PriceArc)
        ensures
            r.bars() == self.bars(),
            r.finished == Some(finished),
            self.wf() ==> r.wf(),
    {
        let mut r = self.to_arc();
        r.finished = Some(finished);
        r
    }
}

/// Publishes each side channel behind a shared handle.
fn arc_immut_info(v: Vec<Vec<Vec<i64>>>) -> (r: Vec<Arc<Vec<Vec<i64>>>>)
    ensures
        r@.len() == v@.len(),
        forall|i: int| 0 <= i < v@.len() ==> #[trigger] r@[i]@ == v@[i]@,
{
    let mut r: Vec<Arc<Vec<Vec<i64>>>> = Vec::with_capacity(v.len());
    let n = v.len();
    let ghost vv = v@;
    let mut rest = v;
    let mut i: usize = 0;
    while i < n
        invariant
            n == vv.len(),
            i <= n,
            rest@ =~= vv.skip(i as int),
            r@.len() == i,
            forall|j: int| 0 <= j < i ==> #[trigger] r@[j]@ == vv[j]@,
        decreases n - i,
    {
        let ghost rest0 = rest@;
        let head = rest.remove(0);
        proof {
            assert(rest@ =~= rest0.drop_first());
            assert(rest0.drop_first() =~= vv.skip(i as int + 1));
        }
        r.push(Arc::new(head));
        i = i + 1;
    }
    r
}

/// A shared, reference-counted, read-only bar series: the published form
/// every transform output and indicator input takes.  Once published, the
/// backing arrays are never mutated.
#[derive(Clone, Debug)]
pub struct PriceArc {
    pub date_time: Arc<Vec<TimePoint>>,
    pub open: Arc<Vec<i64>>,
    pub high: Arc<Vec<i64>>,
    pub low: Arc<Vec<i64>>,
    pub close: Arc<Vec<i64>>,
    pub volume: Arc<Vec<i64>>,
    pub amount: Arc<Vec<i64>>,
    pub ki: Arc<Vec<KlineInfo>>,
    pub immut_info: Vec<Arc<Vec<Vec<i64>>>>,
    pub finished: Option<Vec<KlineState>>,
}

impl PriceArc {
    /// All parallel arrays have the same length.
    pub open spec fn wf(self) -> bool {
        &&& self.open@.len() == self.date_time@.len()
        &&& self.high@.len() == self.date_time@.len()
        &&& self.low@.len() == self.date_time@.len()
        &&& self.close@.len() == self.date_time@.len()
        &&& self.volume@.len() == self.date_time@.len()
        &&& self.amount@.len() == self.date_time@.len()
        &&& self.ki@.len() == self.date_time@.len()
    }

    /// The bar stored at position `i`.
    pub open spec fn bar_at(self, i: int) -> KlineData {
        KlineData {
            date_time: self.date_time@[i],
            open: self.open@[i],
            high: self.high@[i],
            low: self.low@[i],
            close: self.close@[i],
            volume: self.volume@[i],
            amount: self.amount@[i],
            ki: self.ki@[i],
        }
    }

    /// The series as the sequence of bars it holds.
    pub open spec fn bars(self) -> Seq<KlineData> {
        Seq::new(self.date_time@.len(), |i: int| self.bar_at(i))
    }

    /// The bar at position `i`.
    pub fn get_bar(&self, i: usize) -> (d: KlineData)
        requires
            self.wf(),
            i < self.date_time@.len(),
        ensures
            d == self.bars()[i as int],
    {
        KlineData {
            date_time: self.date_time[i],
            open: self.open[i],
            high: self.high[i],
            low: self.low[i],
            close: self.close[i],
            volume: self.volume[i],
            amount: self.amount[i],
            ki: self.ki[i],
        }
    }

    /// Copies the shared series back into an owned store, dropping the
    /// mask.
    pub fn to_price_ori(&self) -> (r: PriceOri)
        requires
            self.wf(),
        ensures
            r.wf(),
            r.bars() =~= self.bars(),
    {
        let n = self.date_time.len();
        let mut r = PriceOri::with_capacity(n);
        let mut i: usize = 0;
        while i < n
            invariant
                self.wf(),
                r.wf(),
                n == self.date_time@.len(),
                i <= n,
                r.bars() =~= self.bars().take(i as int),
            decreases n - i,
        {
            let d = self.get_bar(i);
            r.update(&d);
            proof {
                assert(self.bars().take(i as int).push(self.bars()[i as int]) =~= self.bars().take(i as int + 1));
            }
            i = i + 1;
        }
        proof {
            assert(self.bars().take(n as int) =~= self.bars());
        }
        r
    }

    /// Number of bars in the series.
    pub fn len(&self) -> (r: usize)
        ensures
            r == self.date_time@.len(),
    {
        self.date_time.len()
    }

    /// A new handle onto the same backing arrays, with no recorded mask.
    pub fn share_no_mask(&self) -> (r: PriceArc)
        ensures
            r.date_time@ == self.date_time@,
            r.open@ == self.open@,
            r.high@ == self.high@,
            r.low@ == self.low@,
            r.close@ == self.close@,
            r.volume@ == self.volume@,
            r.amount@ == self.amount@,
            r.ki@ == self.ki@,
            r.bars() == self.bars(),
            r.finished is None,
            r.immut_info@.len() == self.immut_info@.len(),
            self.wf() ==> r.wf(),
    {
        let r = PriceArc {
            date_time: Arc::clone(&self.date_time),
            open: Arc::clone(&self.open),
            high: Arc::clone(&self.high),
            low: Arc::clone(&self.low),
            close: Arc::clone(&self.close),
            volume: Arc::clone(&self.volume),
            amount: Arc::clone(&self.amount),
            ki: Arc::clone(&self.ki),
            immut_info: self.share_immut(),
            finished: None,
        };
        proof {
            assert(r.bars() =~= self.bars());
        }
        r
    }

    /// New handles onto the same side channels.
    pub fn share_immut(&self) -> (r: Vec<Arc<Vec<Vec<i64>>>>)
        ensures
            r@.len() == self.immut_info@.len(),
            forall|i: int| 0 <= i < r@.len() ==> #[trigger] r@[i]@ == self.immut_info@[i]@,
    {
        let n = self.immut_info.len();
        let mut r: Vec<Arc<Vec<Vec<i64>>>> = Vec::with_capacity(n);
        let mut i: usize = 0;
        while i < n
            invariant
                n == self.immut_info@.len(),
                i <= n,
                r@.len() == i,
                forall|j: int| 0 <= j < i ==> #[trigger] r@[j]@ == self.immut_info@[j]@,
            decreases n - i,
        {
            r.push(Arc::clone(&self.immut_info[i]));
            i = i + 1;
        }
        r
    }

    /// The open column as an owned vector.
    pub fn opens_vec(&self) -> (r: Vec<i64>)
        requires
            self.wf(),
        ensures
            r@ == crate::dcon::opens_of(self.bars()),
    {
        let n = self.date_time.len();
        let mut r: Vec<i64> = Vec::with_capacity(n);
        let mut i: usize = 0;
        while i < n
            invariant
                self.wf(),
                n == self.date_time@.len(),
                i <= n,
                r@.len() == i,
                forall|j: int| 0 <= j < i ==> #[trigger] r@[j] == self.open@[j],
            decreases n - i,
        {
            r.push(self.open[i]);
            i = i + 1;
        }
        proof {
            assert(r@ =~= crate::dcon::opens_of(self.bars()));
        }
        r
    }

    /// The high column as an owned vector.
    pub fn highs_vec(&self) -> (r: Vec<i64>)
        requires
            self.wf(),
        ensures
            r@ == crate::dcon::highs_of(self.bars()),
    {
        let n = self.date_time.len();
        let mut r: Vec<i64> = Vec::with_capacity(n);
        let mut i: usize = 0;
        while i < n
            invariant
                self.wf(),
                n == self.date_time@.len(),
                i <= n,
                r@.len() == i,
                forall|j: int| 0 <= j < i ==> #[trigger] r@[j] == self.high@[j],
            decreases n - i,
        {
            r.push(self.high[i]);
            i = i + 1;
        }
        proof {
            assert(r@ =~= crate::dcon::highs_of(self.bars()));
        }
        r
    }

    /// A new handle onto the same backing arrays, keeping the recorded
    /// mask.
    pub fn share_full(&self) -> (r: PriceArc)
        ensures
            r.bars() == self.bars(),
            crate::dcon::mask_view(r.finished) == crate::dcon::mask_view(self.finished),
            r.immut_info@.len() == self.immut_info@.len(),
            self.wf() ==> r.wf(),
    {
        let mut r = self.share_no_mask();
        match &self.finished {
            None => {
                r
            },
            Some(mask) => {
                let n = mask.len();
                let mut m: Vec<KlineState> = Vec::with_capacity(n);
                let mut i: usize = 0;
                while i < n
                    invariant
                        n == mask@.len(),
                        i <= n,
                        m@ =~= mask@.take(i as int),
                    decreases n - i,
                {
                    m.push(mask[i]);
                    proof {
                        assert(m@ =~= mask@.take(i as int + 1));
                    }
                    i = i + 1;
                }
                proof {
                    assert(m@ =~= mask@);
                }
                r.finished = Some(m);
                r
            },
        }
    }

    /// The close column as an owned vector.
    pub fn closes_vec(&self) -> (r: Vec<i64>)
        requires
            self.wf(),
        ensures
            r@ == crate::dcon::closes_of(self.bars()),
    {
        let n = self.date_time.len();
        let mut r: Vec<i64> = Vec::with_capacity(n);
        let mut i: usize = 0;
        while i < n
            invariant
                self.wf(),
                n == self.date_time@.len(),
                i <= n,
                r@.len() == i,
                forall|j: int| 0 <= j < i ==> #[trigger] r@[j] == self.close@[j],
            decreases n - i,
        {
            r.push(self.close[i]);
            i = i + 1;
        }
        proof {
            assert(r@ =~= crate::dcon::closes_of(self.bars()));
        }
        r
    }

    /// The low column as an owned vector.
    pub fn lows_vec(&self) -> (r: Vec<i64>)
        requires
            self.wf(),
        ensures
            r@ == crate::dcon::lows_of(self.bars()),
    {
        let n = self.date_time.len();
        let mut r: Vec<i64> = Vec::with_capacity(n);
        let mut i: usize = 0;
        while i < n
            invariant
                self.wf(),
                n == self.date_time@.len(),
                i <= n,
                r@.len() == i,
                forall|j: int| 0 <= j < i ==> #[trigger] r@[j] == self.low@[j],
            decreases n - i,
        {
            r.push(self.low[i]);
            i = i + 1;
        }
        proof {
            assert(r@ =~= crate::dcon::lows_of(self.bars()));
        }
        r
    }

    /// The volume column as an owned vector.
    pub fn volumes_vec(&self) -> (r: Vec<i64>)
        requires
            self.wf(),
        ensures
            r@ == crate::dcon::volumes_of(self.bars()),
    {
        let n = self.date_time.len();
        let mut r: Vec<i64> = Vec::with_capacity(n);
        let mut i: usize = 0;
        while i < n
            invariant
                self.wf(),
                n == self.date_time@.len(),
                i <= n,
                r@.len() == i,
                forall|j: int| 0 <= j < i ==> #[trigger] r@[j] == self.volume@[j],
            decreases n - i,
        {
            r.push(self.volume[i]);
            i = i + 1;
        }
        proof {
            assert(r@ =~= crate::dcon::volumes_of(self.bars()));
        }
        r
    }
}

} // verus!
