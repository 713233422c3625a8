use stocks_rs::backtesting::{count_dates_with_candles, pair_combinations, trade_windows};
use stocks_rs::candles::{group_candles, resolution_step, CandleWindow};
use stocks_rs::robinhood::{
    checked_select_snapshot_rows, chunk_bounds, list_distinct_strikes, select_snapshot_rows, MinTicks, OptionInstrument,
    OptionMarketData, SnapshotRow,
};
use stocks_rs::parameters::{build_signal_parameter_combinations, pair_fast_below_slow, SignalParameters};
use stocks_rs::signals::DirectionChange;
use stocks_rs::statistics::{tally_backtest_results, OutcomeTally, ProfitSign};
use stocks_rs::structs::{BacktestMode, BacktestOutcome};

fn option(id: &str, option_type: &str, strike_price: &str) -> OptionInstrument {
    OptionInstrument {
        chain_id: String::from("chain"),
        chain_symbol: String::from("SPY"),
        created_at: String::new(),
        expiration_date: String::from("2023-01-27"),
        id: id.to_string(),
        issue_date: String::new(),
        min_ticks: MinTicks { above_tick: String::new(), below_tick: String::new(), cutoff_price: String::new() },
        rhs_tradability: String::new(),
        tradability_for_late_closing_etfs: None,
        state: String::from("active"),
        strike_price: strike_price.to_string(),
        tradability: String::new(),
        option_type: option_type.to_string(),
        updated_at: String::new(),
        url: String::new(),
        sellout_datetime: String::new(),
        long_strategy_code: String::new(),
        short_strategy_code: String::new(),
    }
}

fn quote(instrument_id: &str, delta: Option<&str>, last_trade_price: Option<&str>) -> OptionMarketData {
    OptionMarketData {
        adjusted_mark_price: String::new(),
        adjusted_mark_price_round_down: String::new(),
        ask_price: String::new(),
        ask_size: 0,
        bid_price: String::new(),
        bid_size: 0,
        break_even_price: String::new(),
        high_price: None,
        instrument: String::new(),
        instrument_id: instrument_id.to_string(),
        last_trade_price: last_trade_price.map(|s| s.to_string()),
        last_trade_size: None,
        low_price: None,
        mark_price: String::new(),
        open_interest: 0,
        previous_close_date: String::new(),
        previous_close_price: String::new(),
        updated_at: String::new(),
        volume: 0,
        symbol: String::from("SPY"),
        occ_symbol: String::new(),
        state: String::new(),
        chance_of_profit_long: None,
        chance_of_profit_short: None,
        delta: delta.map(|s| s.to_string()),
        gamma: None,
        implied_volatility: None,
        rho: None,
        theta: None,
        vega: None,
        high_fill_rate_buy_price: None,
        high_fill_rate_sell_price: None,
        low_fill_rate_buy_price: None,
        low_fill_rate_sell_price: None,
    }
}

#[test]
fn distinct_strikes_keep_first_occurrence_order() {
    let options = vec![
        option("a", "call", "400.0000"),
        option("b", "call", "395.0000"),
        option("c", "put", "400.0000"),
        option("d", "put", "395.0000"),
    ];
    assert_eq!(list_distinct_strikes(&options), vec!["400.0000".to_string(), "395.0000".to_string()]);
}

#[test]
fn snapshot_rows_pair_calls_and_puts_with_their_quotes() {
    let options = vec![
        option("c400", "call", "400.0000"),
        option("c395", "call", "395.0000"),
        option("p400", "put", "400.0000"),
        option("p395", "put", "395.0000"),
    ];
    let quotes = vec![
        quote("p400", Some("-0.5"), Some("1.10")),
        quote("c400", Some("0.5"), Some("1.20")),
        quote("c395", Some("0.7"), None),
        quote("p395", Some("-0.3"), Some("0.40")),
    ];
    let (strikes, rows) = select_snapshot_rows(&options, &quotes);
    assert_eq!(strikes, vec!["400.0000".to_string(), "395.0000".to_string()]);
    // strike 395 is skipped: its call has no last trade price
    assert_eq!(
        rows,
        vec![SnapshotRow { strike_index: 0, call_index: 0, put_index: 2, call_quote_index: 1, put_quote_index: 0 }]
    );
}

#[test]
fn strikes_without_a_put_are_refused() {
    let options = vec![option("c400", "call", "400.0000")];
    assert!(checked_select_snapshot_rows(&options, &vec![]).is_none());
    let complete = vec![option("c400", "call", "400.0000"), option("p400", "put", "400.0000")];
    let (strikes, rows) = checked_select_snapshot_rows(&complete, &vec![]).unwrap();
    assert_eq!(strikes.len(), 1);
    assert!(rows.is_empty());
}

#[test]
fn instrument_ids_are_requested_in_chunks() {
    assert_eq!(chunk_bounds(300, 128), vec![(0, 128), (128, 256), (256, 300)]);
    assert_eq!(chunk_bounds(256, 128), vec![(0, 128), (128, 256)]);
    assert_eq!(chunk_bounds(0, 128), Vec::<(usize, usize)>::new());
    assert_eq!(chunk_bounds(5, 1).len(), 5);
}

#[test]
fn tally_counts_signs_and_outcomes() {
    let signs = vec![ProfitSign::Gain, ProfitSign::Loss, ProfitSign::Gain, ProfitSign::Even, ProfitSign::Undefined];
    let outcomes = vec![
        BacktestOutcome::ProfitLimit,
        BacktestOutcome::StopLoss,
        BacktestOutcome::DirectionChange,
        BacktestOutcome::DirectionChange,
        BacktestOutcome::StopLoss,
    ];
    let tally = tally_backtest_results(&signs, &outcomes);
    assert_eq!(
        tally,
        OutcomeTally {
            num_trades: 5,
            num_wins: 2,
            num_losses: 1,
            num_breakevens: 1,
            num_profit_limits: 1,
            num_stop_losses: 2,
            num_direction_changes: 2,
        }
    );
    assert_eq!(tally.num_profit_limits + tally.num_stop_losses + tally.num_direction_changes, tally.num_trades);
    assert_eq!(tally.num_wins + tally.num_losses + tally.num_breakevens, tally.num_trades - 1);
    assert_eq!(tally_backtest_results(&vec![], &vec![]).num_trades, 0);
}

#[test]
fn dates_without_candles_are_not_counted() {
    assert_eq!(count_dates_with_candles(&vec![390, 0, 210, 0, 1]), 3);
    assert_eq!(count_dates_with_candles(&vec![]), 0);
}

#[test]
fn combinations_pair_every_setting_in_order() {
    assert_eq!(pair_combinations(2, 3), vec![(0, 0), (0, 1), (0, 2), (1, 0), (1, 1), (1, 2)]);
    assert_eq!(pair_combinations(0, 3), Vec::<(usize, usize)>::new());
    assert_eq!(pair_combinations(4, 0), Vec::<(usize, usize)>::new());
}

#[test]
fn trade_windows_skip_empty_runs_and_refuse_bad_ones() {
    let changes = vec![
        DirectionChange { start_snapshot_index: 10, end_snapshot_index: Some(14) },
        DirectionChange { start_snapshot_index: 14, end_snapshot_index: Some(14) },
        DirectionChange { start_snapshot_index: 14, end_snapshot_index: Some(20) },
    ];
    assert_eq!(trade_windows(&changes, 21, BacktestMode::SingleEntry), Some(vec![(10, 14), (14, 20)]));
    assert_eq!(trade_windows(&changes, 19, BacktestMode::SingleEntry), None);
    assert_eq!(trade_windows(&changes, 21, BacktestMode::MultipleEntry), None);
    let open = vec![DirectionChange { start_snapshot_index: 3, end_snapshot_index: None }];
    assert_eq!(trade_windows(&open, 21, BacktestMode::SingleEntry), None);
}

#[test]
fn resolutions() {
    assert_eq!(resolution_step("1"), Some(60));
    assert_eq!(resolution_step("5"), Some(300));
    assert_eq!(resolution_step("15"), None);
}

fn windows(groups: &[CandleWindow]) -> Vec<(i64, Vec<usize>)> {
    groups.iter().map(|g| (g.start, g.members.clone())).collect()
}

#[test]
fn one_minute_candles_group_into_five_minute_candles() {
    // 9:30 to 9:44, with 9:36 missing and the whole 9:45 window empty
    let start = 1674484200;
    let timestamps: Vec<i64> = vec![0, 1, 2, 3, 4, 5, 7, 8, 9, 10, 11, 12, 13, 14].iter().map(|m| start + 60 * m).collect();
    let groups = group_candles(&timestamps, start, start + 60 * 19, 300);
    assert_eq!(
        windows(&groups),
        vec![
            (start, vec![0, 1, 2, 3, 4]),
            (start + 300, vec![5, 6, 7, 8]),
            (start + 600, vec![9, 10, 11, 12, 13]),
        ]
    );
}

#[test]
fn grouping_keeps_input_order_and_ignores_candles_outside() {
    let groups = group_candles(&vec![120, 0, 60, 5000], 0, 119, 60);
    assert_eq!(windows(&groups), vec![(0, vec![1]), (60, vec![2])]);
    assert!(group_candles(&vec![], 0, 1000, 60).is_empty());
}

#[test]
fn signal_parameter_combinations_keep_fast_below_slow() {
    let combinations = build_signal_parameter_combinations();
    assert_eq!(combinations.len(), 24);
    let pair = |fast: usize, slow: usize| SignalParameters { warmup_periods: 1, fast_periods: fast, slow_periods: slow };
    assert_eq!(combinations[0], pair(5, 10));
    assert_eq!(combinations[1..4].to_vec(), vec![pair(5, 20), pair(10, 20), pair(15, 20)]);
    assert_eq!(combinations[23], pair(40, 50));
    assert!(combinations.iter().all(|c| c.fast_periods < c.slow_periods));
    assert_eq!(pair_fast_below_slow(&vec![10, 20], &vec![10]), Vec::<SignalParameters>::new());
}
