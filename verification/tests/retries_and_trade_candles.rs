use stocks_rs::exits::trade_exit_or_last;
use stocks_rs::structs::Outcome;
use stocks_rs::retry::{next_retry_step, RetryStep};
use stocks_rs::trading::trade_candle_indices;

fn known() -> Vec<String> {
    vec![String::from("timed out"), String::from("invalid response status: 502")]
}

#[test]
fn a_success_finishes_at_any_attempt() {
    assert_eq!(next_retry_step(0, 3, true, "", &known()), RetryStep::Finish);
    assert_eq!(next_retry_step(2, 3, true, "", &known()), RetryStep::Finish);
}

#[test]
fn an_unknown_error_aborts() {
    assert_eq!(next_retry_step(0, 3, false, "invalid response status: 404", &known()), RetryStep::Abort);
}

#[test]
fn a_known_error_is_retried_until_the_last_attempt() {
    assert_eq!(next_retry_step(0, 3, false, "request timed out", &known()), RetryStep::WaitAndRetry);
    assert_eq!(next_retry_step(1, 3, false, "timed out", &known()), RetryStep::WaitAndRetry);
    assert_eq!(next_retry_step(2, 3, false, "timed out", &known()), RetryStep::WaitAndGiveUp);
    assert_eq!(next_retry_step(0, 1, false, "invalid response status: 502", &known()), RetryStep::WaitAndGiveUp);
}

#[test]
fn trade_candles_lie_from_the_start_to_the_end() {
    let timestamps = vec![60, 120, 180, 240, 120];
    assert_eq!(trade_candle_indices(120, 180, &timestamps), vec![1, 2, 4]);
    assert_eq!(trade_candle_indices(0, 59, &timestamps), Vec::<usize>::new());
    assert_eq!(trade_candle_indices(240, 240, &timestamps), vec![3]);
    assert_eq!(trade_candle_indices(180, 120, &timestamps), Vec::<usize>::new());
}

#[test]
fn a_trade_without_hits_exits_at_its_last_candle() {
    assert_eq!(trade_exit_or_last(&vec![false, false, false], &vec![false, false, false]), (Outcome::DirectionChange, 2));
    assert_eq!(trade_exit_or_last(&vec![false, true, false], &vec![false, true, true]), (Outcome::StopLoss, 1));
    assert_eq!(trade_exit_or_last(&vec![false, false, true], &vec![false, true, false]), (Outcome::ProfitLimit, 1));
    assert_eq!(trade_exit_or_last(&vec![false], &vec![false]), (Outcome::DirectionChange, 0));
}
