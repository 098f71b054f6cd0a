use qust::ticker::{
    convert_ticker_to_str, ticker_from_str, Commission, ExtractTicker, IntoTicker, Ticker,
    TradingPeriod,
};
use qust::util::div_floor;

#[test]
fn ticker_names_round_trip() {
    let all = [
        Ticker::al, Ticker::cu, Ticker::ni, Ticker::sn, Ticker::zn, Ticker::bu, Ticker::eg,
        Ticker::MA, Ticker::l, Ticker::pp, Ticker::TA, Ticker::v, Ticker::ru, Ticker::eb,
        Ticker::PF, Ticker::SA, Ticker::jm, Ticker::FG, Ticker::hc, Ticker::i, Ticker::j,
        Ticker::SM, Ticker::rb, Ticker::SF, Ticker::ZC, Ticker::ss, Ticker::p, Ticker::y,
        Ticker::OI, Ticker::fu, Ticker::sc, Ticker::pg, Ticker::au, Ticker::ag, Ticker::m,
        Ticker::a, Ticker::jd, Ticker::RM, Ticker::AP, Ticker::SR, Ticker::sp, Ticker::CF,
        Ticker::c, Ticker::cs, Ticker::SH, Ticker::UR, Ticker::IF,
    ];
    for t in all {
        let name = convert_ticker_to_str(t);
        assert_eq!(ticker_from_str(name), Some(t));
        assert_eq!(name.into_ticker(), Some(t));
    }
    assert_eq!(ticker_from_str("nope"), None);
    assert_eq!(ticker_from_str(""), None);
}

#[test]
fn contract_names_split_into_ticker_and_number() {
    assert_eq!("rb2305".extract_ticker(), Some((Ticker::rb, 2305)));
    assert_eq!("MA401".extract_ticker(), Some((Ticker::MA, 401)));
    assert_eq!("xx123".extract_ticker(), None);
    assert_eq!("rb".extract_ticker(), None);
    assert_eq!("rb99999999999999".extract_ticker(), None);
}

#[test]
fn metadata_and_fees() {
    let info = Ticker::al.info();
    assert_eq!(info.price_tick, 500);
    assert_eq!(info.volume_multiple, 5);
    assert!(matches!(info.commission, Commission::Fixed(300)));
    // Two lots at a fixed fee of three hundred hundredths cost six.
    assert_eq!(info.comm(1000, 2), 6);
    // Slippage: lots times multiplier times tenths of a tick unit.
    assert_eq!(info.slip(2), 10);
    assert_eq!(info.trade_money(2, 1000), 10000);
    let prop = Ticker::cu.info();
    assert!(matches!(prop.commission, Commission::Proportional(50)));
    // One lot of five units at one thousand: fifty millionths of the
    // traded money.
    assert_eq!(prop.comm(1000, 1), 0);
    assert_eq!(prop.comm(1000000, 1), 250);
}

#[test]
fn trading_periods() {
    assert!(matches!(TradingPeriod::from(Ticker::AP), TradingPeriod::Light));
    assert!(matches!(TradingPeriod::from(Ticker::au), TradingPeriod::LightNightMorn));
    assert!(matches!(TradingPeriod::from(Ticker::rb), TradingPeriod::LightNight));
}

#[test]
fn floor_division_rounds_down() {
    assert_eq!(div_floor(7, 2), 3);
    assert_eq!(div_floor(-7, 2), -4);
    assert_eq!(div_floor(-8, 2), -4);
    assert_eq!(div_floor(0, 5), 0);
}
