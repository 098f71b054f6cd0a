use qust::clock::{Interval, TimePoint};
use qust::di::{DataInfo, Pcon};
use qust::inter::{KlineData, KlineInfo};
use qust::price::PriceOri;
use qust::ta::{KlineType, RollFunc, Ta};
use qust::ticker::Ticker;

fn bar(msec: u32, open: i64, high: i64, low: i64, close: i64, volume: i64) -> KlineData {
    KlineData {
        date_time: TimePoint { day: 0, msec },
        open,
        high,
        low,
        close,
        volume,
        amount: volume * close,
        ki: KlineInfo { open_time: TimePoint { day: 0, msec }, pass_last: 1, pass_this: 1, contract: 1 },
    }
}

fn dataset_from_closes(closes: &[i64]) -> DataInfo {
    let mut price = PriceOri::with_capacity(closes.len());
    for (i, &c) in closes.iter().enumerate() {
        price.update(&bar(i as u32 * 1000, c, c, c, c, 10));
    }
    Pcon::from_price(price, vec![Interval::Time(0, 86399999)], Ticker::rb).to_di()
}

#[test]
fn rsi_two_on_documented_closes() {
    // Closes 10, 12, 11, 13, 14: gains 0,2,0,2,1 and losses 0,0,1,0,0,
    // each smoothed with span two by e[i] = (2 x[i] + e[i-1]) / 3:
    // gains smooth to 0,1,0,1,1 and losses to 0,0,0,0,0, so the ratio is
    // zero where nothing moved and one hundred where only gains did.
    let mut di = dataset_from_closes(&[10, 12, 11, 13, 14]);
    let v = di.get_indicator(&Ta::Rsi(2));
    assert_eq!(v.len(), 1);
    assert_eq!(v[0], vec![0, 100, 0, 100, 100]);
}

#[test]
fn atr_of_span_one_is_true_range() {
    let mut price = PriceOri::with_capacity(3);
    price.update(&bar(0, 9, 10, 8, 9, 1));
    price.update(&bar(1000, 11, 12, 9, 11, 1));
    price.update(&bar(2000, 10, 13, 10, 12, 1));
    let mut di = Pcon::from_price(price, vec![Interval::Time(0, 86399999)], Ticker::al).to_di();
    let tr = di.get_indicator(&Ta::Tr);
    let atr = di.get_indicator(&Ta::Atr(1));
    assert_eq!(atr[0], tr[0]);
    // True range by hand: high-close, low-to-lagged-close, high-low.
    assert_eq!(tr[0], vec![2, 3, 3]);
}

#[test]
fn stochastic_k_is_zero_on_a_flat_series() {
    let mut di = dataset_from_closes(&[5, 5, 5, 5]);
    let k = di.get_indicator(&Ta::Kta(2, 2, 2));
    assert_eq!(k[0], vec![0, 0, 0, 0]);
}

#[test]
fn stochastic_j_combines_k_and_d() {
    let mut di = dataset_from_closes(&[10, 14, 11, 16, 12]);
    let k = di.get_indicator(&Ta::Kta(3, 2, 2));
    let d = di.get_indicator(&Ta::Dta(3, 2, 2));
    let j = di.get_indicator(&Ta::Jta(3, 2, 2));
    for i in 0..5 {
        assert_eq!(j[0][i], 3 * d[0][i] - 2 * k[0][i]);
    }
}

#[test]
fn diff_and_macd_follow_the_smoothings() {
    let mut di = dataset_from_closes(&[10, 20, 15, 30, 25, 40]);
    let diff = di.get_indicator(&Ta::Diff(2, 4));
    let macd = di.get_indicator(&Ta::Macd(2, 4, 3));
    assert_eq!(diff[0].len(), 6);
    assert_eq!(macd[0].len(), 6);
    assert_eq!(diff[0][0], 0);
    assert_eq!(macd[0][0], 0);
}

#[test]
fn rolling_reductions() {
    let mut di = dataset_from_closes(&[3, 1, 2, 5]);
    let mx = di.get_indicator(&Ta::Max(KlineType::Close, 2));
    let mn = di.get_indicator(&Ta::Min(KlineType::Close, 2));
    assert_eq!(mx[0], vec![3, 3, 2, 5]);
    assert_eq!(mn[0], vec![3, 1, 1, 2]);
}

#[test]
fn roll_ta_reduces_an_inner_indicator() {
    let mut di = dataset_from_closes(&[3, 1, 2, 5]);
    let inner = di.get_indicator(&Ta::Kline(KlineType::Close));
    let rolled = di.get_indicator(&Ta::RollTa(Box::new(Ta::Kline(KlineType::Close)), RollFunc::Sum, 2));
    assert_eq!(inner[0], vec![3, 1, 2, 5]);
    assert_eq!(rolled[0], vec![3, 4, 3, 7]);
}

#[test]
fn eff_ratio_is_zero_when_nothing_moved() {
    let mut di = dataset_from_closes(&[7, 7, 7]);
    let v = di.get_indicator(&Ta::EffRatio(1, 2));
    assert_eq!(v[0], vec![0, 0, 0]);
}

#[test]
fn eff_ratio_is_signed_share_of_movement() {
    let mut di = dataset_from_closes(&[10, 12, 11]);
    let v = di.get_indicator(&Ta::EffRatio(1, 2));
    // Moves are 0, +2, -1; windowed absolute movement is 0, 2, 3.
    assert_eq!(v[0], vec![0, 100, -34]);
}

#[test]
fn kday_ratio_compares_gap_with_its_mean() {
    let mut price = PriceOri::with_capacity(2);
    price.update(&bar(0, 10, 12, 9, 12, 1));
    price.update(&bar(1000, 12, 13, 10, 10, 1));
    let mut di = Pcon::from_price(price, vec![Interval::Time(0, 86399999)], Ticker::cu).to_di();
    let v = di.get_indicator(&Ta::KDayRatio(2));
    // Gaps are 2 and 2; their rolling means are 2 and 2.
    assert_eq!(v[0], vec![100, 100]);
}

#[test]
fn rankma_counts_rising_mean_steps() {
    let mut di = dataset_from_closes(&[1, 2, 3, 2, 1]);
    let v = di.get_indicator(&Ta::Rankma(1, 2));
    // Mean steps rise at the second and third bar only.
    assert_eq!(v[0], vec![0, 1, 2, 1, 0]);
}

#[test]
fn spread_measures_distance_from_the_mean() {
    let mut di = dataset_from_closes(&[10, 30]);
    let v = di.get_indicator(&Ta::Spread(2));
    // First bar sits on its own mean; the second is 50% above the
    // window mean of 20, in ratio fixed point.
    assert_eq!(v[0], vec![0, 500000]);
}
