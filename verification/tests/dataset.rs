use qust::clock::{Interval, TimePoint};
use qust::dcon::Convert;
use qust::di::{CacheScope, DataInfo, Pcon};
use qust::fore::ForeCalc;
use qust::inter::{KlineData, KlineInfo, KlineState};
use qust::price::PriceOri;
use qust::ta::{KlineType, Ta};
use qust::ticker::Ticker;
use qust::idx::{GetPart, Idx, NLast, OnlyOne};

fn bar(msec: u32, open: i64, high: i64, low: i64, close: i64, volume: i64) -> KlineData {
    KlineData {
        date_time: TimePoint { day: 0, msec },
        open,
        high,
        low,
        close,
        volume,
        amount: volume * close,
        ki: KlineInfo { open_time: TimePoint { day: 0, msec }, pass_last: 1, pass_this: 1, contract: 1 },
    }
}

fn sample_dataset() -> DataInfo {
    let rows: [(i64, i64, i64, i64, i64); 6] = [
        (10, 12, 9, 11, 10),
        (11, 13, 10, 12, 5),
        (12, 14, 11, 13, 20),
        (13, 15, 12, 14, 3),
        (14, 16, 13, 15, 30),
        (15, 17, 14, 16, 8),
    ];
    let mut price = PriceOri::with_capacity(rows.len());
    for (i, r) in rows.iter().enumerate() {
        price.update(&bar(i as u32 * 1000, r.0, r.1, r.2, r.3, r.4));
    }
    Pcon::from_price(price, vec![Interval::Time(0, 86399999)], Ticker::rb).to_di()
}

#[test]
fn cached_indicator_is_not_recomputed() {
    let mut di = sample_dataset();
    let first = di.get_indicator(&Ta::Rsi(3));
    let computed = di.compute_count;
    let second = di.get_indicator(&Ta::Rsi(3));
    assert_eq!(first, second);
    assert_eq!(di.compute_count, computed);
}

#[test]
fn structurally_equal_descriptors_share_one_entry() {
    let mut di = sample_dataset();
    let a = di.get_indicator(&Ta::Max(KlineType::High, 2));
    let computed = di.compute_count;
    let b = di.get_indicator(&Ta::Max(KlineType::High, 2));
    assert_eq!(a, b);
    assert_eq!(di.compute_count, computed);
    let _c = di.get_indicator(&Ta::Max(KlineType::High, 3));
    assert!(di.compute_count > computed);
}

#[test]
fn cached_transform_is_shared() {
    let mut di = sample_dataset();
    let a = di.calc(&Convert::Log);
    let computed = di.compute_count;
    let b = di.calc(&Convert::Log);
    assert_eq!(*a.close, *b.close);
    assert_eq!(di.compute_count, computed);
}

#[test]
fn clearing_forces_recomputation() {
    let mut di = sample_dataset();
    let _ = di.get_indicator(&Ta::Tr);
    let computed = di.compute_count;
    di.clear_cache(CacheScope::All);
    let _ = di.get_indicator(&Ta::Tr);
    assert!(di.compute_count > computed);
}

#[test]
fn composite_applies_its_second_stage() {
    let mut di = sample_dataset();
    let composite = Convert::PreNow(Box::new(Convert::Log), Box::new(Convert::VolFilter(2, 100)));
    let chained = di.calc(&composite);
    let pre = di.calc(&Convert::Log);
    let direct = Convert::VolFilter(2, 100).convert(&pre);
    assert_eq!(*chained.close, *direct.close);
    assert_eq!(*chained.open, *direct.open);
    assert_eq!(chained.finished, direct.finished);
}

#[test]
fn three_stage_composite_chains() {
    let mut di = sample_dataset();
    let inner = Convert::PreNow(Box::new(Convert::Log), Box::new(Convert::FlatTick));
    let outer = Convert::PreNow(Box::new(inner.clone()), Box::new(Convert::VolFilter(2, 100)));
    let chained = di.calc(&outer);
    let mid = di.calc(&inner);
    let direct = Convert::VolFilter(2, 100).convert(&mid);
    assert_eq!(*chained.close, *direct.close);
    assert_eq!(chained.finished, direct.finished);
}

#[test]
fn vert_back_round_trips_through_the_mask() {
    let mut di = sample_dataset();
    let filter = Convert::VolFilter(2, 100);
    let filtered = di.calc(&filter);
    let mask = filtered.finished.clone().unwrap();
    di.push_dcon(filter.clone());
    let rows = di.get_indicator(&Ta::Kline(KlineType::Close));
    let aligned = di.vert_back(&filter, &rows).unwrap();
    assert_eq!(aligned[0].len(), mask.len());
    let mut filtered_values = Vec::new();
    for (i, m) in mask.iter().enumerate() {
        match m {
            KlineState::Finished => {
                assert!(aligned[0][i].is_some());
                filtered_values.push(aligned[0][i].unwrap());
            },
            _ => assert!(aligned[0][i].is_none()),
        }
    }
    assert_eq!(filtered_values, rows[0]);
    di.pop_dcon();
}

#[test]
fn fore_fill_broadcasts_sparse_values() {
    let mut di = sample_dataset();
    let filter = Convert::VolFilter(2, 100);
    di.push_dcon(filter);
    let filled = di.calc_fore(&Ta::Kline(KlineType::Close), &ForeCalc::VertBackFill).unwrap();
    // After the first present value, every later position carries one.
    let mut seen = false;
    for v in filled[0].iter() {
        if v.is_some() {
            seen = true;
        }
        if seen {
            assert!(v.is_some());
        }
    }
    di.pop_dcon();
}

#[test]
fn vert_back_rejects_rows_off_their_grid() {
    let mut di = sample_dataset();
    let filter = Convert::VolFilter(2, 100);
    let _ = di.calc(&filter);
    // One value too many for the filtered grid.
    let bad = vec![vec![1i64, 2, 3, 4, 5, 6, 7]];
    assert!(di.vert_back(&filter, &bad).is_none());
}

#[test]
fn vert_back_is_identity_without_a_mask() {
    let mut di = sample_dataset();
    let rows = di.get_indicator(&Ta::Kline(KlineType::Close));
    let aligned = di.vert_back(&Convert::FlatTick, &rows).unwrap();
    for (i, v) in rows[0].iter().enumerate() {
        assert_eq!(aligned[0][i], Some(*v));
    }
}

#[test]
fn vert_back_recurses_through_composite_stages() {
    let mut di = sample_dataset();
    // Volumes 10, 5, 20, 3, 30, 8: the top-percentile filter keeps the
    // bars at positions 0, 2 and 4; a second pass keeps all of those.
    let pre = Convert::VolFilter(2, 100);
    let composite = Convert::PreNow(Box::new(pre), Box::new(Convert::VolFilter(2, 100)));
    di.push_dcon(composite.clone());
    let rows = di.get_indicator(&Ta::Kline(KlineType::Close));
    assert_eq!(rows[0], vec![11, 13, 15]);
    let aligned = di.vert_back(&composite, &rows).unwrap();
    assert_eq!(aligned[0].len(), 6);
    assert_eq!(aligned[0][0], Some(11));
    assert_eq!(aligned[0][1], None);
    assert_eq!(aligned[0][2], Some(13));
    assert_eq!(aligned[0][3], None);
    assert_eq!(aligned[0][4], Some(15));
    assert_eq!(aligned[0][5], None);
    di.pop_dcon();
}

#[test]
fn fore_rank_scores_each_row() {
    let mut di = sample_dataset();
    let ranked = di.calc_fore(&Ta::Kline(KlineType::Close), &ForeCalc::Rank(2)).unwrap();
    // Closes rise monotonically, so after the warm-up every value ranks
    // at the top of its own history.
    assert_eq!(ranked.len(), 1);
    assert_eq!(ranked[0][0], None);
    assert_eq!(ranked[0][1], None);
    assert_eq!(ranked[0][2], Some(200 / 3));
    assert_eq!(ranked[0][5], Some(500 / 6));
}

#[test]
fn fore_with_rank_interleaves_rows() {
    let mut di = sample_dataset();
    let rows = di.get_indicator(&Ta::Kline(KlineType::Close));
    let both = di.calc_fore(&Ta::Kline(KlineType::Close), &ForeCalc::WithRank).unwrap();
    assert_eq!(both.len(), 2 * rows.len());
    for (i, v) in rows[0].iter().enumerate() {
        assert_eq!(both[0][i], Some(*v));
    }
    assert!(both[1].iter().all(|v| v.is_some()));
}

#[test]
fn list_wide_clear_empties_every_cache() {
    let di = sample_dataset();
    let mut list = di.repeat(2);
    for d in list.dil.iter_mut() {
        let _ = d.get_indicator(&Ta::Tr);
    }
    list.clear(CacheScope::All);
    for d in list.dil.iter_mut() {
        let before = d.compute_count;
        let _ = d.get_indicator(&Ta::Tr);
        assert!(d.compute_count > before);
    }
}

#[test]
fn parallel_clones_agree_with_sequential_runs() {
    let di = sample_dataset();
    let descriptors = vec![Ta::Rsi(2), Ta::Tr, Ta::Atr(2), Ta::Kta(3, 2, 2)];
    let mut list = di.repeat(3);
    let mut results: Vec<Vec<Vec<Vec<i64>>>> = Vec::new();
    for d in list.dil.iter_mut() {
        let mut per = Vec::new();
        for t in descriptors.iter() {
            per.push(d.get_indicator(t));
        }
        results.push(per);
    }
    assert_eq!(results[0], results[1]);
    assert_eq!(results[1], results[2]);
}

#[test]
fn pushed_transform_changes_the_series_in_force() {
    let mut di = sample_dataset();
    let base_close = di.close();
    di.push_dcon(Convert::FlatTick);
    let flat_close = di.close();
    assert_eq!(base_close.len(), flat_close.len());
    di.pop_dcon();
    let back = di.close();
    assert_eq!(*base_close, *back);
}

#[test]
fn profit_is_scaled_close_over_close() {
    let mut di = sample_dataset();
    let p = di.profit2();
    // First return is zero; the second close moves from 11 to 12.
    assert_eq!(p[0], 0);
    assert_eq!(p[1], 1000000 / 11);
}

#[test]
fn slicing_keeps_the_selected_bars() {
    let di = sample_dataset();
    let part = di.get_part(&Idx::Range(1, 4));
    assert_eq!(part.pcon.price.close, vec![12, 13, 14]);
    let picked = di.get_part(&Idx::List(vec![0, 5]));
    assert_eq!(picked.pcon.price.close, vec![11, 16]);
}

#[test]
fn trailing_selections_cut_by_day() {
    // Two trading days: three bars on day zero, three on day one.
    let mut price = PriceOri::with_capacity(6);
    for i in 0..3 {
        let mut b = bar(i * 1000, 10 + i as i64, 11 + i as i64, 9, 10 + i as i64, 1);
        b.date_time = TimePoint { day: 0, msec: i * 1000 };
        price.update(&b);
    }
    for i in 0..3 {
        let mut b = bar(i * 1000, 20 + i as i64, 21 + i as i64, 19, 20 + i as i64, 1);
        b.date_time = TimePoint { day: 1, msec: i * 1000 };
        price.update(&b);
    }
    let di = Pcon::from_price(price, vec![Interval::Time(0, 86399999)], Ticker::rb).to_di();
    let last_two = di.get_part_last(NLast::Num(2));
    assert_eq!(last_two.pcon.price.close, vec![21, 22]);
    let last_day = di.get_part_last(NLast::Day(1));
    assert_eq!(last_day.pcon.price.close, vec![20, 21, 22]);
    let first_day = di.get_part_last(NLast::DayFirst(1));
    assert_eq!(first_day.pcon.price.close, vec![10, 11, 12]);
    let second_day = di.get_part_last(NLast::DayNth(1));
    assert_eq!(second_day.pcon.price.close, vec![20, 21, 22]);
}

#[test]
fn only_one_selector_finds_the_ticker() {
    let di = sample_dataset();
    let list = di.repeat(2);
    assert!(list.get_idx(OnlyOne(Ticker::rb)).is_some());
    assert!(list.get_idx(OnlyOne(Ticker::cu)).is_none());
    assert_eq!(list.total_kline_nums(), 12);
}
