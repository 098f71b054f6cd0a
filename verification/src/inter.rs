//! The streaming bar aggregator: a state machine that classifies each
//! incoming tick or sub-bar against a session schedule and folds it into
//! the bar under construction.  Each input is classified `Ignor`, `Begin`,
//! `Merging` or `Finished`; a bar is complete exactly on a `Finished`
//! transition.
//!
//! Volume and amount accumulators saturate at `i64::MAX` instead of
//! wrapping; pass counters saturate at `u64::MAX`.

use vstd::prelude::*;
use crate::clock::{TimePoint, Interval, DayRecord, first_containing, interval_ended, record_step};
use crate::util::{sat_add64, sat_add_nonneg, sat_add_u64, sat_add_count, max64, max_i64, min64, min_i64};

verus! {

/// Classification of one input by the aggregation state machine.
#[derive(Clone, Copy, PartialEq, Eq, Structural, Debug)]
pub enum KlineState {
    Ignor,
    Begin,
    Merging,
    Finished,
}

impl Default for KlineState {
    fn default() -> (r: KlineState)
        ensures
            r == KlineState::Finished,
    {
        KlineState::Finished
    }
}

/// Provenance of one emitted bar: when it opened, how many inputs were
/// skipped since the previous bar, how many were merged into this one, and
/// the contract it came from.
#[derive(Clone, Copy, PartialEq, Eq, Structural, Debug)]
pub struct KlineInfo {
    pub open_time: TimePoint,
    pub pass_last: u64,
    pub pass_this: u64,
    pub contract: i32,
}

impl Default for KlineInfo {
    fn default() -> (r: KlineInfo)
        ensures
            r == (KlineInfo { open_time: TimePoint { day: 0, msec: 0 }, pass_last: 0u64, pass_this: 0u64, contract: 0i32 }),
    {
        KlineInfo { open_time: TimePoint { day: 0, msec: 0 }, pass_last: 0, pass_this: 0, contract: 0 }
    }
}

/// One OHLCV bar in fixed-point units.
#[derive(Clone, Copy, PartialEq, Eq, Structural, Debug)]
pub struct KlineData {
    pub date_time: TimePoint,
    pub open: i64,
    pub high: i64,
    pub low: i64,
    pub close: i64,
    pub volume: i64,
    pub amount: i64,
    pub ki: KlineInfo,
}

impl Default for KlineData {
    fn default() -> (r: KlineData)
        ensures
            r == kline_zero(),
    {
        KlineData {
            date_time: TimePoint { day: 0, msec: 0 },
            open: 0,
            high: 0,
            low: 0,
            close: 0,
            volume: 0,
            amount: 0,
            ki: KlineInfo { open_time: TimePoint { day: 0, msec: 0 }, pass_last: 0, pass_this: 0, contract: 0 },
        }
    }
}

pub open spec fn kline_zero() -> KlineData {
    KlineData {
        date_time: TimePoint { day: 0, msec: 0 },
        open: 0,
        high: 0,
        low: 0,
        close: 0,
        volume: 0,
        amount: 0,
        ki: KlineInfo { open_time: TimePoint { day: 0, msec: 0 }, pass_last: 0u64, pass_this: 0u64, contract: 0i32 },
    }
}

/// One raw tick in fixed-point units.
#[derive(Clone, Copy, PartialEq, Eq, Structural, Debug)]
pub struct TickData {
    pub date_time: TimePoint,
    pub last_price: i64,
    pub open: i64,
    pub high: i64,
    pub low: i64,
    pub close: i64,
    pub pre_close: i64,
    pub open_interest: i64,
    pub volume: i64,
    pub amount: i64,
    pub bid_price1: i64,
    pub ask_price1: i64,
    pub bid_volume1: i64,
    pub ask_volume1: i64,
    pub contract: i32,
}

impl Default for TickData {
    fn default() -> (r: TickData)
        ensures
            r == tick_zero(),
    {
        TickData {
            date_time: TimePoint { day: 0, msec: 0 },
            last_price: 0,
            open: 0,
            high: 0,
            low: 0,
            close: 0,
            pre_close: 0,
            open_interest: 0,
            volume: 0,
            amount: 0,
            bid_price1: 0,
            ask_price1: 0,
            bid_volume1: 0,
            ask_volume1: 0,
            contract: 0,
        }
    }
}

pub open spec fn tick_zero() -> TickData {
    TickData {
        date_time: TimePoint { day: 0, msec: 0 },
        last_price: 0,
        open: 0,
        high: 0,
        low: 0,
        close: 0,
        pre_close: 0,
        open_interest: 0,
        volume: 0,
        amount: 0,
        bid_price1: 0,
        ask_price1: 0,
        bid_volume1: 0,
        ask_volume1: 0,
        contract: 0,
    }
}

/// `d` with its skipped-inputs counter replaced.
pub open spec fn with_pass_last(d: KlineData, v: u64) -> KlineData {
    KlineData {
        date_time: d.date_time,
        open: d.open,
        high: d.high,
        low: d.low,
        close: d.close,
        volume: d.volume,
        amount: d.amount,
        ki: KlineInfo {
            open_time: d.ki.open_time,
            pass_last: v,
            pass_this: d.ki.pass_this,
            contract: d.ki.contract,
        },
    }
}

/// Opening a new bar from a tick: every price field seeds from the last
/// trade price, the accumulators from the tick's totals.
pub open spec fn tick_begin(d: KlineData, t: TickData) -> KlineData {
    KlineData {
        date_time: t.date_time,
        open: t.last_price,
        high: t.last_price,
        low: t.last_price,
        close: t.last_price,
        volume: t.volume,
        amount: t.amount,
        ki: KlineInfo {
            open_time: t.date_time,
            pass_last: d.ki.pass_last,
            pass_this: 1u64,
            contract: t.contract,
        },
    }
}

/// Folding a further tick into the open bar.
pub open spec fn tick_merge(d: KlineData, t: TickData) -> KlineData {
    KlineData {
        date_time: t.date_time,
        open: d.open,
        high: max64(d.high, t.last_price),
        low: min64(d.low, t.last_price),
        close: t.last_price,
        volume: sat_add64(d.volume, t.volume),
        amount: sat_add64(d.amount, t.amount),
        ki: KlineInfo {
            open_time: d.ki.open_time,
            pass_last: d.ki.pass_last,
            pass_this: sat_add_u64(d.ki.pass_this, 1),
            contract: d.ki.contract,
        },
    }
}

/// A skipped tick only counts towards the next bar's skip counter.
pub open spec fn tick_ignor(d: KlineData) -> KlineData {
    with_pass_last(d, sat_add_u64(d.ki.pass_last, 1))
}

/// Opening a new bar from a sub-bar.
pub open spec fn bar_begin(d: KlineData, b: KlineData) -> KlineData {
    KlineData {
        date_time: b.date_time,
        open: b.open,
        high: b.high,
        low: b.low,
        close: b.close,
        volume: b.volume,
        amount: b.amount,
        ki: KlineInfo {
            open_time: b.ki.open_time,
            pass_last: sat_add_u64(d.ki.pass_last, (if b.ki.pass_last >= 1 { (b.ki.pass_last - 1) as u64 } else { 0u64 })),
            pass_this: b.ki.pass_this,
            contract: b.ki.contract,
        },
    }
}

/// Folding a further sub-bar into the open bar.
pub open spec fn bar_merge(d: KlineData, b: KlineData) -> KlineData {
    KlineData {
        date_time: b.date_time,
        open: d.open,
        high: max64(d.high, b.high),
        low: min64(d.low, b.low),
        close: b.close,
        volume: sat_add64(d.volume, b.volume),
        amount: sat_add64(d.amount, b.amount),
        ki: KlineInfo {
            open_time: d.ki.open_time,
            pass_last: d.ki.pass_last,
            pass_this: sat_add_u64(d.ki.pass_this, sat_add_u64(b.ki.pass_last, b.ki.pass_this)),
            contract: d.ki.contract,
        },
    }
}

/// A skipped sub-bar contributes its own skip counter.
pub open spec fn bar_ignor(d: KlineData, b: KlineData) -> KlineData {
    with_pass_last(d, sat_add_u64(d.ki.pass_last, b.ki.pass_last))
}

impl KlineData {
    /// Seeds the accumulator from the first tick of a new bar.
    pub fn update_begin_tick(&mut self, t: &TickData)
        ensures
            *final(self) == tick_begin(*old(self), *t),
    {
        self.date_time = t.date_time;
        self.open = t.last_price;
        self.high = t.last_price;
        self.low = t.last_price;
        self.close = t.last_price;
        self.volume = t.volume;
        self.amount = t.amount;
        self.ki.open_time = t.date_time;
        self.ki.pass_this = 1;
        self.ki.contract = t.contract;
    }

    /// Folds a tick into the open bar.
    pub fn update_merging_tick(&mut self, t: &TickData)
        requires
            old(self).volume >= 0,
            old(self).amount >= 0,
            t.volume >= 0,
            t.amount >= 0,
        ensures
            *final(self) == tick_merge(*old(self), *t),
    {
        self.date_time = t.date_time;
        self.high = max_i64(self.high, t.last_price);
        self.low = min_i64(self.low, t.last_price);
        self.close = t.last_price;
        self.volume = sat_add_nonneg(self.volume, t.volume);
        self.amount = sat_add_nonneg(self.amount, t.amount);
        self.ki.pass_this = sat_add_count(self.ki.pass_this, 1);
    }

    /// Counts a tick that belongs to no session interval.
    pub fn update_ignor_tick(&mut self)
        ensures
            *final(self) == tick_ignor(*old(self)),
    {
        self.ki.pass_last = sat_add_count(self.ki.pass_last, 1);
    }

    /// The closing tick folds exactly like a merging one.
    pub fn update_finish_tick(&mut self, t: &TickData)
        requires
            old(self).volume >= 0,
            old(self).amount >= 0,
            t.volume >= 0,
            t.amount >= 0,
        ensures
            *final(self) == tick_merge(*old(self), *t),
    {
        self.update_merging_tick(t);
    }

    /// Seeds the accumulator from the first sub-bar of a new bar.
    pub fn update_begin_bar(&mut self, b: &KlineData)
        ensures
            *final(self) == bar_begin(*old(self), *b),
    {
        self.date_time = b.date_time;
        self.open = b.open;
        self.high = b.high;
        self.low = b.low;
        self.close = b.close;
        self.volume = b.volume;
        self.amount = b.amount;
        self.ki.open_time = b.ki.open_time;
        self.ki.pass_this = b.ki.pass_this;
        self.ki.contract = b.ki.contract;
        let skipped: u64 = if b.ki.pass_last >= 1 { b.ki.pass_last - 1 } else { 0 };
        self.ki.pass_last = sat_add_count(self.ki.pass_last, skipped);
    }

    /// Folds a sub-bar into the open bar.
    pub fn update_merging_bar(&mut self, b: &KlineData)
        requires
            old(self).volume >= 0,
            old(self).amount >= 0,
            b.volume >= 0,
            b.amount >= 0,
        ensures
            *final(self) == bar_merge(*old(self), *b),
    {
        self.date_time = b.date_time;
        self.high = max_i64(self.high, b.high);
        self.low = min_i64(self.low, b.low);
        self.close = b.close;
        self.volume = sat_add_nonneg(self.volume, b.volume);
        self.amount = sat_add_nonneg(self.amount, b.amount);
        self.ki.pass_this = sat_add_count(self.ki.pass_this, sat_add_count(b.ki.pass_last, b.ki.pass_this));
    }

    /// Counts a sub-bar that belongs to no session interval.
    pub fn update_ignor_bar(&mut self, b: &KlineData)
        ensures
            *final(self) == bar_ignor(*old(self), *b),
    {
        self.ki.pass_last = sat_add_count(self.ki.pass_last, b.ki.pass_last);
    }
}

/// The bar accumulator together with the previous and the pending
/// classification.
#[derive(Clone, Copy, PartialEq, Eq, Structural, Debug)]
pub struct KlineWithState {
    pub data: KlineData,
    pub last: KlineState,
    pub current: KlineState,
}

impl Default for KlineWithState {
    fn default() -> (r: KlineWithState)
        ensures
            r == (KlineWithState { data: kline_zero(), last: KlineState::Finished, current: KlineState::Finished }),
    {
        KlineWithState { data: KlineData::default(), last: KlineState::Finished, current: KlineState::Finished }
    }
}

/// One step of the accumulator under an already-chosen classification
/// (`k.current`), fed by a tick.  A bar that had just finished starts its
/// successor's skip counter at one.
pub open spec fn kws_step_tick(k: KlineWithState, t: TickData) -> KlineWithState {
    let d0 = if k.last is Finished { with_pass_last(k.data, 1u64) } else { k.data };
    let d1 = match k.current {
        KlineState::Ignor => tick_ignor(d0),
        KlineState::Begin => tick_begin(d0, t),
        KlineState::Merging => tick_merge(d0, t),
        KlineState::Finished => tick_merge(d0, t),
    };
    KlineWithState { data: d1, last: k.current, current: k.current }
}

/// One step of the accumulator fed by a sub-bar.
pub open spec fn kws_step_bar(k: KlineWithState, b: KlineData) -> KlineWithState {
    let d0 = if k.last is Finished { with_pass_last(k.data, 1u64) } else { k.data };
    let d1 = match k.current {
        KlineState::Ignor => bar_ignor(d0, b),
        KlineState::Begin => bar_begin(d0, b),
        KlineState::Merging => bar_merge(d0, b),
        KlineState::Finished => bar_merge(d0, b),
    };
    KlineWithState { data: d1, last: k.current, current: k.current }
}

impl KlineWithState {
    /// Applies the pending classification to a tick.
    pub fn update_tick(&mut self, t: &TickData)
        requires
            old(self).data.volume >= 0,
            old(self).data.amount >= 0,
            t.volume >= 0,
            t.amount >= 0,
        ensures
            *final(self) == kws_step_tick(*old(self), *t),
    {
        if let KlineState::Finished = self.last {
            self.data.ki.pass_last = 1;
        }
        match self.current {
            KlineState::Ignor => self.data.update_ignor_tick(),
            KlineState::Begin => self.data.update_begin_tick(t),
            KlineState::Merging => self.data.update_merging_tick(t),
            KlineState::Finished => self.data.update_finish_tick(t),
        }
        self.last = self.current;
    }

    /// Applies the pending classification to a sub-bar.
    pub fn update_bar(&mut self, b: &KlineData)
        requires
            old(self).data.volume >= 0,
            old(self).data.amount >= 0,
            b.volume >= 0,
            b.amount >= 0,
        ensures
            *final(self) == kws_step_bar(*old(self), *b),
    {
        if let KlineState::Finished = self.last {
            self.data.ki.pass_last = 1;
        }
        match self.current {
            KlineState::Ignor => self.data.update_ignor_bar(b),
            KlineState::Begin => self.data.update_begin_bar(b),
            KlineState::Merging => self.data.update_merging_bar(b),
            KlineState::Finished => self.data.update_merging_bar(b),
        }
        self.last = self.current;
    }
}

/// The full aggregation state machine: the accumulator, the day-change
/// record, the interval currently in force, and the session schedule.
#[derive(Clone, PartialEq, Eq, Debug)]
#[verifier::ext_equal]
pub struct KlineStateInter {
    pub kline_state: KlineWithState,
    pub record: DayRecord,
    pub time_range: Interval,
    pub intervals: Vec<Interval>,
}

/// The classification of the next point in time, together with the
/// interval and day-change record it leaves in force.  After a finished or
/// ignored input the schedule is searched anew; an open bar is extended or
/// closed by the interval in force.
pub open spec fn classify(
    last: KlineState,
    intervals: Seq<Interval>,
    time_range: Interval,
    record: DayRecord,
    tp: TimePoint,
) -> (KlineState, Interval, DayRecord) {
    match last {
        KlineState::Finished | KlineState::Ignor => {
            match first_containing(intervals, tp.msec) {
                None => (KlineState::Ignor, time_range, record),
                Some(iv) => (KlineState::Begin, iv, DayRecord { day: tp.day, count: 0i64 }),
            }
        },
        KlineState::Begin | KlineState::Merging => {
            let rec2 = record_step(time_range, record, tp.day, tp.msec);
            if interval_ended(time_range, record, tp.day, tp.msec) {
                (KlineState::Finished, time_range, rec2)
            } else {
                (KlineState::Merging, time_range, rec2)
            }
        },
    }
}

/// One full machine step on a tick: classify, then fold.
pub open spec fn inter_step_tick(m: KlineStateInter, t: TickData) -> KlineStateInter {
    let c = classify(m.kline_state.last, m.intervals@, m.time_range, m.record, t.date_time);
    KlineStateInter {
        kline_state: kws_step_tick(
            KlineWithState { data: m.kline_state.data, last: m.kline_state.last, current: c.0 },
            t,
        ),
        record: c.2,
        time_range: c.1,
        intervals: m.intervals,
    }
}

/// One full machine step on a sub-bar: classify, then fold.
pub open spec fn inter_step_bar(m: KlineStateInter, b: KlineData) -> KlineStateInter {
    let c = classify(m.kline_state.last, m.intervals@, m.time_range, m.record, b.date_time);
    KlineStateInter {
        kline_state: kws_step_bar(
            KlineWithState { data: m.kline_state.data, last: m.kline_state.last, current: c.0 },
            b,
        ),
        record: c.2,
        time_range: c.1,
        intervals: m.intervals,
    }
}

/// Whether the machine has just emitted a bar.
pub open spec fn inter_emits(m: KlineStateInter) -> bool {
    m.kline_state.last is Finished
}

/// The machine's accumulators stay non-negative; ticks and sub-bars are
/// fed with non-negative volume and amount.
pub open spec fn inter_wf(m: KlineStateInter) -> bool {
    m.kline_state.data.volume >= 0 && m.kline_state.data.amount >= 0
}

/// The machine state without its schedule: everything one step changes.
#[derive(Clone, Copy, PartialEq, Eq, Structural, Debug)]
pub struct InterModel {
    pub kws: KlineWithState,
    pub record: DayRecord,
    pub time_range: Interval,
}

/// The schedule-free part of a machine's state.
pub open spec fn model_of(m: KlineStateInter) -> InterModel {
    InterModel { kws: m.kline_state, record: m.record, time_range: m.time_range }
}

/// The state of a freshly constructed machine over a schedule.
pub open spec fn init_model(ivs: Seq<Interval>) -> InterModel {
    InterModel {
        kws: KlineWithState { data: kline_zero(), last: KlineState::Finished, current: KlineState::Finished },
        record: DayRecord { day: 0i32, count: 0i64 },
        time_range: ivs[0],
    }
}

/// One machine step on a tick, at the model level.
pub open spec fn model_step_tick(md: InterModel, ivs: Seq<Interval>, t: TickData) -> InterModel {
    let c = classify(md.kws.last, ivs, md.time_range, md.record, t.date_time);
    InterModel {
        kws: kws_step_tick(KlineWithState { data: md.kws.data, last: md.kws.last, current: c.0 }, t),
        record: c.2,
        time_range: c.1,
    }
}

/// One machine step on a sub-bar, at the model level.
pub open spec fn model_step_bar(md: InterModel, ivs: Seq<Interval>, b: KlineData) -> InterModel {
    let c = classify(md.kws.last, ivs, md.time_range, md.record, b.date_time);
    InterModel {
        kws: kws_step_bar(KlineWithState { data: md.kws.data, last: md.kws.last, current: c.0 }, b),
        record: c.2,
        time_range: c.1,
    }
}

/// Whether a model state has just emitted a bar.
pub open spec fn model_emits(md: InterModel) -> bool {
    md.kws.last is Finished
}

/// Every bar a tick stream makes the machine emit, in order.
pub open spec fn model_bars_tick(md: InterModel, ivs: Seq<Interval>, ts: Seq<TickData>) -> Seq<KlineData>
    decreases ts.len(),
{
    if ts.len() == 0 {
        Seq::empty()
    } else {
        let md2 = model_step_tick(md, ivs, ts[0]);
        (if model_emits(md2) { seq![md2.kws.data] } else { Seq::empty() })
            + model_bars_tick(md2, ivs, ts.drop_first())
    }
}

/// The per-input classification a tick stream produces: the finished mask.
pub open spec fn model_mask_tick(md: InterModel, ivs: Seq<Interval>, ts: Seq<TickData>) -> Seq<KlineState>
    decreases ts.len(),
{
    if ts.len() == 0 {
        Seq::empty()
    } else {
        let md2 = model_step_tick(md, ivs, ts[0]);
        seq![md2.kws.last] + model_mask_tick(md2, ivs, ts.drop_first())
    }
}

/// Every bar a sub-bar stream makes the machine emit, in order.
pub open spec fn model_bars_bar(md: InterModel, ivs: Seq<Interval>, bs: Seq<KlineData>) -> Seq<KlineData>
    decreases bs.len(),
{
    if bs.len() == 0 {
        Seq::empty()
    } else {
        let md2 = model_step_bar(md, ivs, bs[0]);
        (if model_emits(md2) { seq![md2.kws.data] } else { Seq::empty() })
            + model_bars_bar(md2, ivs, bs.drop_first())
    }
}

/// The finished mask a sub-bar stream produces.
pub open spec fn model_mask_bar(md: InterModel, ivs: Seq<Interval>, bs: Seq<KlineData>) -> Seq<KlineState>
    decreases bs.len(),
{
    if bs.len() == 0 {
        Seq::empty()
    } else {
        let md2 = model_step_bar(md, ivs, bs[0]);
        seq![md2.kws.last] + model_mask_bar(md2, ivs, bs.drop_first())
    }
}

/// Bar aggregation is deterministic: the emitted bar sequence is a
/// function of the schedule and the input stream alone, so any two runs
/// over the same data agree.
pub proof fn lemma_bar_aggregation_deterministic(
    ivs1: Seq<Interval>,
    ivs2: Seq<Interval>,
    ts1: Seq<TickData>,
    ts2: Seq<TickData>,
)
    requires
        ivs1 == ivs2,
        ts1 == ts2,
    ensures
        model_bars_tick(init_model(ivs1), ivs1, ts1) == model_bars_tick(init_model(ivs2), ivs2, ts2),
        model_mask_tick(init_model(ivs1), ivs1, ts1) == model_mask_tick(init_model(ivs2), ivs2, ts2),
{
}

/// The machine state after a whole tick stream.
pub open spec fn model_run_tick(md: InterModel, ivs: Seq<Interval>, ts: Seq<TickData>) -> InterModel
    decreases ts.len(),
{
    if ts.len() == 0 {
        md
    } else {
        model_run_tick(model_step_tick(md, ivs, ts[0]), ivs, ts.drop_first())
    }
}

/// No interval of the schedule contains the tick's time of day.
pub open spec fn tick_outside(ivs: Seq<Interval>, t: TickData) -> bool {
    first_containing(ivs, t.date_time.msec) is None
}

/// No interval of the schedule contains any tick of the stream.
pub open spec fn stream_outside(ivs: Seq<Interval>, ts: Seq<TickData>) -> bool {
    forall|i: int| 0 <= i < ts.len() ==> tick_outside(ivs, #[trigger] ts[i])
}

/// Searching a concatenated schedule finds what the first half finds,
/// and otherwise what the second half finds.
pub proof fn lemma_first_containing_append(s1: Seq<Interval>, s2: Seq<Interval>, msec: u32)
    ensures
        first_containing(s1 + s2, msec) == (match first_containing(s1, msec) {
            Some(iv) => Some(iv),
            None => first_containing(s2, msec),
        }),
    decreases s1.len(),
{
    if s1.len() == 0 {
        assert(s1 + s2 =~= s2);
    } else {
        assert((s1 + s2)[0] == s1[0]);
        assert((s1 + s2).drop_first() =~= s1.drop_first() + s2);
        lemma_first_containing_append(s1.drop_first(), s2, msec);
    }
}

/// Feeding a stream in two chunks is the same as feeding it whole: the
/// state composes and the emitted bars and mask entries concatenate.
pub proof fn lemma_run_append(md: InterModel, ivs: Seq<Interval>, xs: Seq<TickData>, ys: Seq<TickData>)
    ensures
        model_run_tick(md, ivs, xs + ys)
            == model_run_tick(model_run_tick(md, ivs, xs), ivs, ys),
        model_bars_tick(md, ivs, xs + ys)
            == model_bars_tick(md, ivs, xs) + model_bars_tick(model_run_tick(md, ivs, xs), ivs, ys),
        model_mask_tick(md, ivs, xs + ys)
            == model_mask_tick(md, ivs, xs) + model_mask_tick(model_run_tick(md, ivs, xs), ivs, ys),
    decreases xs.len(),
{
    if xs.len() == 0 {
        assert(xs + ys =~= ys);
        assert(model_bars_tick(md, ivs, xs) + model_bars_tick(md, ivs, ys)
            =~= model_bars_tick(md, ivs, ys));
        assert(model_mask_tick(md, ivs, xs) + model_mask_tick(md, ivs, ys)
            =~= model_mask_tick(md, ivs, ys));
    } else {
        assert((xs + ys)[0] == xs[0]);
        assert((xs + ys).drop_first() =~= xs.drop_first() + ys);
        let md2 = model_step_tick(md, ivs, xs[0]);
        lemma_run_append(md2, ivs, xs.drop_first(), ys);
        assert(model_bars_tick(md, ivs, xs + ys)
            =~= model_bars_tick(md, ivs, xs)
                + model_bars_tick(model_run_tick(md, ivs, xs), ivs, ys));
        assert(model_mask_tick(md, ivs, xs + ys)
            =~= model_mask_tick(md, ivs, xs)
                + model_mask_tick(model_run_tick(md, ivs, xs), ivs, ys));
    }
}

/// Extending a schedule with intervals that contain none of the stream's
/// times changes nothing: one machine step agrees under both schedules.
pub proof fn lemma_step_schedule_extension(md: InterModel, s1: Seq<Interval>, s2: Seq<Interval>, t: TickData)
    requires
        tick_outside(s2, t),
    ensures
        model_step_tick(md, s1 + s2, t) == model_step_tick(md, s1, t),
{
    lemma_first_containing_append(s1, s2, t.date_time.msec);
}

/// Extending a schedule with intervals that contain none of the stream's
/// times changes nothing over a whole stream.
pub proof fn lemma_run_schedule_extension(md: InterModel, s1: Seq<Interval>, s2: Seq<Interval>, ts: Seq<TickData>)
    requires
        stream_outside(s2, ts),
    ensures
        model_run_tick(md, s1 + s2, ts) == model_run_tick(md, s1, ts),
        model_bars_tick(md, s1 + s2, ts) == model_bars_tick(md, s1, ts),
        model_mask_tick(md, s1 + s2, ts) == model_mask_tick(md, s1, ts),
    decreases ts.len(),
{
    if ts.len() > 0 {
        assert(tick_outside(s2, ts[0]));
        lemma_step_schedule_extension(md, s1, s2, ts[0]);
        assert(forall|i: int| 0 <= i < ts.drop_first().len()
            ==> tick_outside(s2, #[trigger] ts.drop_first()[i]));
        lemma_run_schedule_extension(model_step_tick(md, s1, ts[0]), s1, s2, ts.drop_first());
    }
}

/// A closed machine ignores a stream that lies outside its schedule: no
/// bar is emitted and the machine stays closed.
pub proof fn lemma_run_outside(md: InterModel, ivs: Seq<Interval>, ts: Seq<TickData>)
    requires
        md.kws.last is Finished || md.kws.last is Ignor,
        stream_outside(ivs, ts),
    ensures
        model_bars_tick(md, ivs, ts) == Seq::<KlineData>::empty(),
        ({
            let fin = model_run_tick(md, ivs, ts);
            (fin.kws.last is Finished || fin.kws.last is Ignor)
                && fin.time_range == md.time_range
                && fin.record == md.record
        }),
    decreases ts.len(),
{
    if ts.len() > 0 {
        assert(tick_outside(ivs, ts[0]));
        let md2 = model_step_tick(md, ivs, ts[0]);
        assert(md2.kws.last is Ignor);
        assert(forall|i: int| 0 <= i < ts.drop_first().len()
            ==> tick_outside(ivs, #[trigger] ts.drop_first()[i]));
        lemma_run_outside(md2, ivs, ts.drop_first());
        assert(model_bars_tick(md, ivs, ts)
            =~= model_bars_tick(md2, ivs, ts.drop_first()));
    }
}

/// Dropping intervals from the front of a schedule that contain none of
/// the stream's times changes nothing.
pub proof fn lemma_run_schedule_prefix(md: InterModel, s1: Seq<Interval>, s2: Seq<Interval>, ts: Seq<TickData>)
    requires
        stream_outside(s1, ts),
    ensures
        model_run_tick(md, s1 + s2, ts) == model_run_tick(md, s2, ts),
        model_bars_tick(md, s1 + s2, ts) == model_bars_tick(md, s2, ts),
        model_mask_tick(md, s1 + s2, ts) == model_mask_tick(md, s2, ts),
    decreases ts.len(),
{
    if ts.len() > 0 {
        assert(tick_outside(s1, ts[0]));
        lemma_first_containing_append(s1, s2, ts[0].date_time.msec);
        assert(model_step_tick(md, s1 + s2, ts[0]) == model_step_tick(md, s2, ts[0]));
        assert(forall|i: int| 0 <= i < ts.drop_first().len()
            ==> tick_outside(s1, #[trigger] ts.drop_first()[i]));
        lemma_run_schedule_prefix(model_step_tick(md, s2, ts[0]), s1, s2, ts.drop_first());
    }
}

/// The bar with its skip counter cleared: what two aggregation runs
/// agree on when they disagree only about how many inputs they skipped.
pub open spec fn bar_core(d: KlineData) -> KlineData {
    with_pass_last(d, 0)
}

/// A whole bar sequence up to skip counters.
pub open spec fn bars_core(bs: Seq<KlineData>) -> Seq<KlineData> {
    Seq::new(bs.len(), |i: int| bar_core(bs[i]))
}

/// Whether a classification leaves the machine without an open bar.
pub open spec fn state_closed(s: KlineState) -> bool {
    s is Finished || s is Ignor
}

/// Two machine states that behave alike from here on: both closed, or
/// in the same open state over the same interval with the same
/// day-change record and accumulators agreeing up to the skip counter.
pub open spec fn core_similar(m1: InterModel, m2: InterModel) -> bool {
    &&& ((state_closed(m1.kws.last) && state_closed(m2.kws.last)) || m1.kws.last == m2.kws.last)
    &&& ((m1.kws.last is Begin || m1.kws.last is Merging) ==> {
        &&& m1.kws.last == m2.kws.last
        &&& m1.time_range == m2.time_range
        &&& m1.record == m2.record
        &&& bar_core(m1.kws.data) == bar_core(m2.kws.data)
    })
}

/// One step preserves core similarity, and both machines emit together,
/// with bars that agree up to the skip counter.
pub proof fn lemma_step_core_similar(m1: InterModel, m2: InterModel, ivs: Seq<Interval>, t: TickData)
    requires
        core_similar(m1, m2),
    ensures
        core_similar(model_step_tick(m1, ivs, t), model_step_tick(m2, ivs, t)),
        model_step_tick(m1, ivs, t).kws.last == model_step_tick(m2, ivs, t).kws.last,
        (model_emits(model_step_tick(m1, ivs, t)) ==> bar_core(model_step_tick(m1, ivs, t).kws.data)
            == bar_core(model_step_tick(m2, ivs, t).kws.data)),
{
    let tp = t.date_time;
    match m1.kws.last {
        KlineState::Finished | KlineState::Ignor => {
            match first_containing(ivs, tp.msec) {
                None => {},
                Some(_iv) => {},
            }
        },
        KlineState::Begin | KlineState::Merging => {},
    }
}

/// A whole stream preserves core similarity: the two runs classify every
/// input alike and emit the same bars up to the skip counters.
pub proof fn lemma_run_core_similar(m1: InterModel, m2: InterModel, ivs: Seq<Interval>, ts: Seq<TickData>)
    requires
        core_similar(m1, m2),
    ensures
        core_similar(model_run_tick(m1, ivs, ts), model_run_tick(m2, ivs, ts)),
        model_mask_tick(m1, ivs, ts) == model_mask_tick(m2, ivs, ts),
        bars_core(model_bars_tick(m1, ivs, ts)) == bars_core(model_bars_tick(m2, ivs, ts)),
    decreases ts.len(),
{
    if ts.len() == 0 {
        assert(bars_core(model_bars_tick(m1, ivs, ts)) =~= bars_core(model_bars_tick(m2, ivs, ts)));
        assert(model_mask_tick(m1, ivs, ts) =~= model_mask_tick(m2, ivs, ts));
    } else {
        let n1 = model_step_tick(m1, ivs, ts[0]);
        let n2 = model_step_tick(m2, ivs, ts[0]);
        lemma_step_core_similar(m1, m2, ivs, ts[0]);
        lemma_run_core_similar(n1, n2, ivs, ts.drop_first());
        assert(model_mask_tick(m1, ivs, ts) =~= model_mask_tick(m2, ivs, ts));
        lemma_bars_core_prepend(n1, n2, ivs, ts);
    }
}

/// Helper for the inductive case: the emitted head bars agree in core
/// form, so the whole core sequences agree.
proof fn lemma_bars_core_prepend(n1: InterModel, n2: InterModel, ivs: Seq<Interval>, ts: Seq<TickData>)
    requires
        ts.len() > 0,
        n1.kws.last == n2.kws.last,
        model_emits(n1) ==> bar_core(n1.kws.data) == bar_core(n2.kws.data),
        bars_core(model_bars_tick(n1, ivs, ts.drop_first())) == bars_core(model_bars_tick(n2, ivs, ts.drop_first())),
    ensures
        ({
            let h1 = if model_emits(n1) { seq![n1.kws.data] } else { Seq::<KlineData>::empty() };
            let h2 = if model_emits(n2) { seq![n2.kws.data] } else { Seq::<KlineData>::empty() };
            bars_core(h1 + model_bars_tick(n1, ivs, ts.drop_first()))
                == bars_core(h2 + model_bars_tick(n2, ivs, ts.drop_first()))
        }),
{
    let t1 = model_bars_tick(n1, ivs, ts.drop_first());
    let t2 = model_bars_tick(n2, ivs, ts.drop_first());
    if model_emits(n1) {
        assert(model_emits(n2));
        assert(bars_core(seq![n1.kws.data] + t1) =~= bars_core(seq![n2.kws.data] + t2)) by {
            assert(bars_core(seq![n1.kws.data] + t1).len() == 1 + t1.len());
            assert(bars_core(t1).len() == bars_core(t2).len());
            assert forall|i: int| 0 <= i < 1 + t1.len()
                implies bars_core(seq![n1.kws.data] + t1)[i] == bars_core(seq![n2.kws.data] + t2)[i] by {
                if i == 0 {
                } else {
                    assert(bars_core(t1)[i - 1] == bars_core(t2)[i - 1]);
                    assert((seq![n1.kws.data] + t1)[i] == t1[i - 1]);
                    assert((seq![n2.kws.data] + t2)[i] == t2[i - 1]);
                }
            }
        }
    } else {
        assert(!model_emits(n2));
        assert(bars_core(Seq::<KlineData>::empty() + t1) =~= bars_core(t1));
        assert(bars_core(Seq::<KlineData>::empty() + t2) =~= bars_core(t2));
    }
}

/// Concatenating two schedules that partition the stream: aggregating
/// the first half of a stream against the first schedule and the second
/// half against the second, then concatenating the bars, equals
/// aggregating the whole stream against the concatenated schedule —
/// provided each half's times lie outside the other schedule's windows
/// and the first half leaves the machine closed.  The bar sequences
/// agree up to the skip counters, which count differently by
/// construction: the full run folds the first half's inputs into bars
/// that the second schedule alone would have skipped.
pub proof fn lemma_partitioned_schedules(
    s1: Seq<Interval>,
    s2: Seq<Interval>,
    ta: Seq<TickData>,
    tb: Seq<TickData>,
)
    requires
        s1.len() > 0,
        s2.len() > 0,
        stream_outside(s2, ta),
        stream_outside(s1, tb),
        ({
            let m = model_run_tick(init_model(s1), s1, ta);
            m.kws.last is Finished || m.kws.last is Ignor
        }),
    ensures
        bars_core(model_bars_tick(init_model(s1 + s2), s1 + s2, ta + tb))
            == bars_core(model_bars_tick(init_model(s1), s1, ta))
                + bars_core(model_bars_tick(init_model(s2), s2, tb)),
{
    let full = s1 + s2;
    assert(full[0] == s1[0]);
    assert(init_model(full) == init_model(s1));
    lemma_run_append(init_model(full), full, ta, tb);
    lemma_run_schedule_extension(init_model(s1), s1, s2, ta);
    let m_a = model_run_tick(init_model(s1), s1, ta);
    assert(model_run_tick(init_model(full), full, ta) == m_a);
    assert(model_bars_tick(init_model(full), full, ta) == model_bars_tick(init_model(s1), s1, ta));
    // Over the second half the first schedule never matches, so the full
    // schedule behaves as the second alone.
    lemma_run_schedule_prefix(m_a, s1, s2, tb);
    // The carried-over machine and a fresh one are both closed, so they
    // emit the same bars up to skip counters.
    assert(core_similar(m_a, init_model(s2)));
    lemma_run_core_similar(m_a, init_model(s2), s2, tb);
    // Assemble: cores distribute over the concatenation.
    let ba = model_bars_tick(init_model(s1), s1, ta);
    let bb_full = model_bars_tick(m_a, s2, tb);
    let bb = model_bars_tick(init_model(s2), s2, tb);
    assert(model_bars_tick(init_model(full), full, ta + tb) == ba + bb_full);
    assert(bars_core(ba + bb_full) =~= bars_core(ba) + bars_core(bb_full)) by {
        assert forall|i: int| 0 <= i < ba.len() + bb_full.len()
            implies bars_core(ba + bb_full)[i] == (bars_core(ba) + bars_core(bb_full))[i] by {
            if i < ba.len() {
                assert((ba + bb_full)[i] == ba[i]);
            } else {
                assert((ba + bb_full)[i] == bb_full[i - ba.len()]);
            }
        }
    }
    assert(bars_core(bb_full) == bars_core(bb));
}

impl KlineStateInter {
    /// A fresh machine over the given schedule, whose first interval is
    /// initially in force.  An empty schedule is a configuration error.
    pub fn from_intervals(intervals: Vec<Interval>) -> (r: KlineStateInter)
        requires
            intervals@.len() > 0,
        ensures
            model_of(r) == init_model(intervals@),
            r.intervals@ == intervals@,
            inter_wf(r),
    {
        let time_range = intervals[0];
        KlineStateInter {
            kline_state: KlineWithState::default(),
            record: DayRecord::default(),
            time_range,
            intervals,
        }
    }

    /// Classifies a point in time, updating the interval in force and the
    /// day-change record, without touching the accumulator.
    pub fn check_datetime(&mut self, tp: TimePoint) -> (r: KlineState)
        ensures
            ({
                let c = classify(old(self).kline_state.last, old(self).intervals@, old(self).time_range, old(self).record, tp);
                r == c.0 && final(self).time_range == c.1 && final(self).record == c.2
            }),
            final(self).kline_state == old(self).kline_state,
            final(self).intervals == old(self).intervals,
    {
        match self.kline_state.last {
            KlineState::Finished | KlineState::Ignor => {
                match Interval::get_time_end(&self.intervals, tp.msec) {
                    None => KlineState::Ignor,
                    Some(tc) => {
                        self.time_range = tc;
                        self.record = DayRecord { day: tp.day, count: 0 };
                        KlineState::Begin
                    },
                }
            },
            KlineState::Begin | KlineState::Merging => {
                let ended = self.time_range.is_end(&mut self.record, tp.day, tp.msec);
                if ended {
                    KlineState::Finished
                } else {
                    KlineState::Merging
                }
            },
        }
    }

    /// Feeds one tick through the machine.
    pub fn update_tick(&mut self, t: &TickData)
        requires
            inter_wf(*old(self)),
            t.volume >= 0,
            t.amount >= 0,
        ensures
            *final(self) == inter_step_tick(*old(self), *t),
            model_of(*final(self)) == model_step_tick(model_of(*old(self)), old(self).intervals@, *t),
            final(self).intervals == old(self).intervals,
    {
        self.kline_state.current = self.check_datetime(t.date_time);
        self.kline_state.update_tick(t);
        proof {
            assert(*self =~= inter_step_tick(*old(self), *t));
        }
    }

    /// Feeds one sub-bar through the machine.
    pub fn update_bar(&mut self, b: &KlineData)
        requires
            inter_wf(*old(self)),
            b.volume >= 0,
            b.amount >= 0,
        ensures
            *final(self) == inter_step_bar(*old(self), *b),
            model_of(*final(self)) == model_step_bar(model_of(*old(self)), old(self).intervals@, *b),
            final(self).intervals == old(self).intervals,
    {
        self.kline_state.current = self.check_datetime(b.date_time);
        self.kline_state.update_bar(b);
        proof {
            assert(*self =~= inter_step_bar(*old(self), *b));
        }
    }
}

} // verus!
