use stocks_rs::minutes::{count_candles_before, next_entry_index, session_minutes};

#[test]
fn session_minutes_include_the_end_minute() {
    assert_eq!(session_minutes(0, 120), vec![0, 60, 120]);
}

#[test]
fn session_minutes_stop_before_a_partial_minute() {
    assert_eq!(session_minutes(1_674_484_200, 1_674_484_319), vec![1_674_484_200, 1_674_484_260]);
}

#[test]
fn session_minutes_are_empty_when_the_end_is_before_the_start() {
    assert_eq!(session_minutes(600, 599), Vec::<i64>::new());
    assert_eq!(session_minutes(600, 600), vec![600]);
}

#[test]
fn candles_before_a_minute_are_those_that_closed_before_it() {
    let timestamps = vec![60, 120, 180];
    assert_eq!(count_candles_before(&timestamps, 60), 0);
    assert_eq!(count_candles_before(&timestamps, 120), 1);
    assert_eq!(count_candles_before(&timestamps, 121), 2);
    assert_eq!(count_candles_before(&timestamps, 1000), 3);
    assert_eq!(count_candles_before(&vec![], 1000), 0);
}

#[test]
fn warm_up_lasts_over_later_minutes() {
    let timestamps = vec![180, 60, 300, 120];
    let mut previous = 0;
    for pointer in session_minutes(0, 600) {
        let count = count_candles_before(&timestamps, pointer);
        assert!(count >= previous);
        previous = count;
    }
    assert_eq!(previous, 4);
}

#[test]
fn next_entry_skips_the_minutes_of_the_trade() {
    assert_eq!(next_entry_index(3, 1_000, 1_000), 4);
    assert_eq!(next_entry_index(3, 1_000, 1_059), 4);
    assert_eq!(next_entry_index(3, 1_000, 1_060), 4);
    assert_eq!(next_entry_index(3, 1_000, 1_300), 8);
    assert_eq!(next_entry_index(0, -120, 60), 3);
}
