use qust::fore::{align, count_fin_exec, ffill, rank1d};
use qust::inter::KlineState;

#[test]
fn align_places_values_on_finished_positions() {
    let mask = vec![
        KlineState::Finished,
        KlineState::Ignor,
        KlineState::Begin,
        KlineState::Finished,
        KlineState::Merging,
    ];
    assert_eq!(count_fin_exec(&mask), 2);
    let xs = vec![Some(7), Some(9)];
    let r = align(&mask, &xs);
    assert_eq!(r, vec![Some(7), None, None, Some(9), None]);
}

#[test]
fn align_round_trip_recovers_the_computed_row() {
    let mask = vec![
        KlineState::Ignor,
        KlineState::Finished,
        KlineState::Finished,
        KlineState::Ignor,
        KlineState::Finished,
    ];
    let xs = vec![Some(1), Some(2), Some(3)];
    let r = align(&mask, &xs);
    assert_eq!(r.len(), mask.len());
    let collected: Vec<Option<i64>> = r.iter().filter(|v| v.is_some()).cloned().collect();
    assert_eq!(collected, xs);
    for (i, m) in mask.iter().enumerate() {
        assert_eq!(r[i].is_some(), matches!(m, KlineState::Finished));
    }
}

#[test]
fn fill_forward_carries_the_last_value() {
    let r = ffill(&vec![None, Some(3), None, Some(5), None]);
    assert_eq!(r, vec![None, Some(3), Some(3), Some(5), Some(5)]);
}

#[test]
fn trailing_rank_is_the_share_of_smaller_history() {
    let r = rank1d(&vec![5, 1, 7, 3], 0);
    assert_eq!(r, vec![Some(0), Some(0), Some(66), Some(25)]);
}

#[test]
fn trailing_rank_respects_the_warm_up() {
    let r = rank1d(&vec![5, 1, 7, 3], 2);
    assert_eq!(r, vec![None, None, Some(66), Some(25)]);
}
