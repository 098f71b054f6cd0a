use qust::clock::{Interval, TimePoint};
use qust::dcon::Convert;
use qust::inter::{KlineData, KlineInfo, KlineState};
use qust::price::PriceOri;

fn bar(msec: u32, open: i64, high: i64, low: i64, close: i64, volume: i64) -> KlineData {
    KlineData {
        date_time: TimePoint { day: 0, msec },
        open,
        high,
        low,
        close,
        volume,
        amount: volume * close,
        ki: KlineInfo { open_time: TimePoint { day: 0, msec }, pass_last: 1, pass_this: 1, contract: 1 },
    }
}

fn series(rows: &[(i64, i64, i64, i64, i64)]) -> qust::price::PriceArc {
    let mut price = PriceOri::with_capacity(rows.len());
    for (i, r) in rows.iter().enumerate() {
        price.update(&bar(i as u32 * 1000, r.0, r.1, r.2, r.3, r.4));
    }
    price.to_arc()
}

#[test]
fn identity_transform_keeps_the_series() {
    let p = series(&[(10, 12, 9, 11, 1), (11, 13, 10, 12, 2)]);
    let r = Convert::Tf(0, 1).convert(&p);
    assert_eq!(*r.close, *p.close);
    assert_eq!(*r.open, *p.open);
    assert!(r.finished.is_none());
}

#[test]
fn volume_filter_keeps_peak_volume_bars() {
    let p = series(&[(1, 1, 1, 1, 10), (2, 2, 2, 2, 5), (3, 3, 3, 3, 20)]);
    let r = Convert::VolFilter(2, 100).convert(&p);
    assert_eq!(
        r.finished,
        Some(vec![KlineState::Finished, KlineState::Ignor, KlineState::Finished])
    );
    assert_eq!(*r.close, vec![1, 3]);
}

#[test]
fn log_normalise_scales_by_the_minimum_low() {
    let p = series(&[(4, 6, 2, 4, 1), (6, 8, 4, 6, 1)]);
    let r = Convert::Log.convert(&p);
    // The minimum low is 2; every price becomes price/2 in ratio fixed
    // point.
    assert_eq!(*r.low, vec![1000000, 2000000]);
    assert_eq!(*r.close, vec![2000000, 3000000]);
    assert_eq!(*r.volume, *p.volume);
}

#[test]
fn log_normalise_leaves_nonpositive_series_alone() {
    let p = series(&[(0, 0, 0, 0, 1), (1, 1, 1, 1, 1)]);
    let r = Convert::Log.convert(&p);
    assert_eq!(*r.close, *p.close);
}

#[test]
fn flat_tick_suppresses_one_bar_spikes() {
    let p = series(&[(5, 5, 5, 5, 1), (7, 7, 7, 7, 1), (5, 5, 5, 5, 1), (5, 5, 5, 5, 1)]);
    let r = Convert::FlatTick.convert(&p);
    assert_eq!(*r.close, vec![5, 5, 5, 5]);
    assert_eq!(*r.open, vec![5, 5, 5, 5]);
}

#[test]
fn heikin_ashi_averages_the_bar() {
    let p = series(&[(10, 14, 8, 12, 1), (12, 16, 10, 14, 1)]);
    let r = Convert::Ha(2).convert(&p);
    // close' is the average of the four prices; open' lags the smoothed
    // close, seeded from the first element.
    assert_eq!(*r.close, vec![11, 13]);
    assert_eq!(r.open[0], 12);
    assert_eq!(r.open[1], 12);
    assert_eq!(r.high[0], 14);
    assert_eq!(r.low[0], 8);
}

#[test]
fn event_transform_reaggregates_bars() {
    let mut price = PriceOri::with_capacity(3);
    price.update(&bar(0, 10, 12, 9, 11, 2));
    price.update(&bar(500, 11, 13, 10, 12, 3));
    price.update(&bar(1500, 12, 14, 11, 13, 4));
    let p = price.to_arc();
    let r = Convert::Event(vec![Interval::Time(0, 999)]).convert(&p);
    let mask = r.finished.clone().unwrap();
    assert_eq!(mask, vec![KlineState::Begin, KlineState::Merging, KlineState::Finished]);
    assert_eq!(*r.open, vec![10]);
    assert_eq!(*r.high, vec![14]);
    assert_eq!(*r.low, vec![9]);
    assert_eq!(*r.close, vec![13]);
    assert_eq!(*r.volume, vec![9]);
}

#[test]
fn descriptor_equality_is_structural() {
    let a = Convert::PreNow(Box::new(Convert::Log), Box::new(Convert::Ha(3)));
    let b = Convert::PreNow(Box::new(Convert::Log), Box::new(Convert::Ha(3)));
    let c = Convert::PreNow(Box::new(Convert::Log), Box::new(Convert::Ha(4)));
    assert!(a == b);
    assert!(a != c);
    assert!(Convert::Event(vec![Interval::Time(0, 1)]) == Convert::Event(vec![Interval::Time(0, 1)]));
    assert!(Convert::Event(vec![Interval::Time(0, 1)]) != Convert::Event(vec![Interval::Time(0, 2)]));
    let d = a.clone();
    assert!(d == a);
}
