use qust::clock::{Interval, TimePoint, even_slice_time, copy_intervals};
use qust::inter::{KlineState, KlineStateInter, TickData};
use qust::price::{PriceOri, PriceTick};

fn tick(msec: u32, price: i64, volume: i64) -> TickData {
    TickData {
        date_time: TimePoint { day: 0, msec },
        last_price: price,
        open: price,
        high: price,
        low: price,
        close: price,
        pre_close: price,
        open_interest: 0,
        volume,
        amount: volume * price,
        bid_price1: price - 1,
        ask_price1: price + 1,
        bid_volume1: 1,
        ask_volume1: 1,
        contract: 7,
    }
}

fn run_ticks(intervals: &Vec<Interval>, ticks: &[TickData]) -> (PriceOri, Vec<KlineState>) {
    let mut machine = KlineStateInter::from_intervals(copy_intervals(intervals));
    let mut out = PriceOri::with_capacity(ticks.len());
    let mut mask = Vec::new();
    for t in ticks {
        mask.push(machine.step_emit_tick(t, &mut out));
    }
    (out, mask)
}

#[test]
fn session_aggregation_emits_one_bar() {
    let intervals = vec![Interval::Time(0, 999), Interval::Time(1000, 1999)];
    let ticks = vec![tick(0, 100, 2), tick(500, 104, 3), tick(1500, 102, 5), tick(2500, 90, 1)];
    let (out, mask) = run_ticks(&intervals, &ticks);
    assert_eq!(
        mask,
        vec![KlineState::Begin, KlineState::Merging, KlineState::Finished, KlineState::Ignor]
    );
    assert_eq!(out.date_time.len(), 1);
    assert_eq!(out.open[0], 100);
    assert_eq!(out.high[0], 104);
    assert_eq!(out.low[0], 100);
    assert_eq!(out.close[0], 102);
    assert_eq!(out.volume[0], 10);
    assert_eq!(out.ki[0].pass_this, 3);
    assert_eq!(out.ki[0].contract, 7);
}

#[test]
fn aggregation_is_deterministic() {
    let intervals = vec![Interval::Time(0, 999), Interval::DayJump(72000000, 1, 3600000)];
    let ticks = vec![tick(0, 10, 1), tick(300, 12, 1), tick(1100, 11, 1), tick(72100000, 9, 2)];
    let (a, ma) = run_ticks(&intervals, &ticks);
    let (b, mb) = run_ticks(&intervals, &ticks);
    assert_eq!(a.open, b.open);
    assert_eq!(a.high, b.high);
    assert_eq!(a.low, b.low);
    assert_eq!(a.close, b.close);
    assert_eq!(a.volume, b.volume);
    assert_eq!(a.date_time, b.date_time);
    assert_eq!(ma, mb);
}

#[test]
fn partitioned_schedules_give_the_same_bars() {
    // The two halves partition the day and a tick in neither window
    // separates them, so aggregating against each half and concatenating
    // matches aggregating against the full schedule.
    let s1 = vec![Interval::Time(0, 999)];
    let s2 = vec![Interval::Time(1500, 1999)];
    let full = vec![Interval::Time(0, 999), Interval::Time(1500, 1999)];
    let ticks = vec![
        tick(0, 100, 1),
        tick(500, 101, 1),
        tick(1200, 103, 1),
        tick(1600, 104, 1),
        tick(1800, 102, 1),
        tick(2200, 99, 1),
    ];
    let (f, _) = run_ticks(&full, &ticks);
    let (a, _) = run_ticks(&s1, &ticks);
    let (b, _) = run_ticks(&s2, &ticks);
    let mut joined_open = a.open.clone();
    joined_open.extend(b.open.iter().cloned());
    let mut joined_close = a.close.clone();
    joined_close.extend(b.close.iter().cloned());
    let mut joined_high = a.high.clone();
    joined_high.extend(b.high.iter().cloned());
    let mut joined_low = a.low.clone();
    joined_low.extend(b.low.iter().cloned());
    let mut joined_vol = a.volume.clone();
    joined_vol.extend(b.volume.iter().cloned());
    assert_eq!(f.open, joined_open);
    assert_eq!(f.close, joined_close);
    assert_eq!(f.high, joined_high);
    assert_eq!(f.low, joined_low);
    assert_eq!(f.volume, joined_vol);
}

#[test]
fn day_jump_interval_spans_midnight() {
    let intervals = vec![Interval::DayJump(72000000, 1, 3600000)];
    let mut machine = KlineStateInter::from_intervals(intervals);
    let mut out = PriceOri::with_capacity(8);
    // Night session: opens in the evening, crosses midnight, a tick past
    // the closing time on the next day finishes the bar.
    let evening = TickData { date_time: TimePoint { day: 3, msec: 73000000 }, ..tick(0, 50, 1) };
    let late = TickData { date_time: TimePoint { day: 3, msec: 80000000 }, ..tick(0, 52, 1) };
    let morning = TickData { date_time: TimePoint { day: 4, msec: 1000000 }, ..tick(0, 51, 1) };
    let past_close = TickData { date_time: TimePoint { day: 4, msec: 3700000 }, ..tick(0, 53, 1) };
    assert!(matches!(machine.step_emit_tick(&evening, &mut out), KlineState::Begin));
    assert!(matches!(machine.step_emit_tick(&late, &mut out), KlineState::Merging));
    assert!(matches!(machine.step_emit_tick(&morning, &mut out), KlineState::Merging));
    assert!(matches!(machine.step_emit_tick(&past_close, &mut out), KlineState::Finished));
    assert_eq!(out.date_time.len(), 1);
    assert_eq!(out.open[0], 50);
    assert_eq!(out.close[0], 53);
}

#[test]
fn even_slices_cut_the_session() {
    let r = even_slice_time(0, 2500, 1000, 500);
    assert_eq!(r, vec![
        Interval::Time(0, 500),
        Interval::Time(1000, 1500),
        Interval::Time(2000, 2500),
    ]);
}

#[test]
fn even_slices_roll_past_midnight() {
    let r = even_slice_time(86000000, 500000, 1000000, 500);
    assert_eq!(r[0], Interval::DayJump(86000000, 1, 599500));
}

#[test]
fn interval_membership() {
    let day = Interval::Time(1000, 2000);
    assert!(day.is_in(1000));
    assert!(day.is_in(2000));
    assert!(!day.is_in(999));
    let night = Interval::DayJump(72000000, 1, 3600000);
    assert!(night.is_in(73000000));
    assert!(night.is_in(1000));
    assert!(!night.is_in(40000000));
}

#[test]
fn tick_store_round_trip() {
    let ticks = vec![tick(0, 5, 1), tick(10, 6, 2)];
    let store = PriceTick::from_tick_data(&ticks);
    let back = store.to_tick_data();
    assert_eq!(back, ticks);
}

#[test]
fn tick_store_aggregates_to_bars() {
    let ticks = vec![tick(0, 100, 2), tick(500, 104, 3), tick(1500, 102, 5)];
    let store = PriceTick::from_tick_data(&ticks);
    let intervals = vec![Interval::Time(0, 999)];
    let bars = store.to_price_ori(&intervals);
    assert_eq!(bars.date_time.len(), 1);
    assert_eq!(bars.open[0], 100);
    assert_eq!(bars.close[0], 102);
}

#[test]
fn tick_store_loads_into_a_dataset() {
    let ticks = vec![tick(0, 100, 2), tick(500, 104, 3), tick(1500, 102, 5)];
    let store = PriceTick::from_tick_data(&ticks);
    let di = store.to_di(vec![Interval::Time(0, 999)], qust::ticker::Ticker::rb);
    assert_eq!(di.pcon.price.close, vec![102]);
    assert_eq!(di.compute_count, 0);
}
