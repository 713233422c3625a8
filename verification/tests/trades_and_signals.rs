use stocks_rs::exits::{determine_trade_outcome, find_trade_exit, first_hit_index};
use stocks_rs::signal_trades::{build_trades, determine_action, Action, Signal, Trade as TradeEvent, TradeType};
use stocks_rs::signals::{
    build_direction_changes_from_signal_snapshots, checked_build_direction_changes_from_signal_snapshots, DirectionChange,
};
use stocks_rs::structs::{BacktestOutcome, Direction, Outcome};
use stocks_rs::trading::{calculate_trade_spans, calculate_trades_from_direction_snapshots, DirectionSnapshot, TradeSpan};
use stocks_rs::utilities::build_usize_range;

fn snapshot(timestamp: i64, direction: Direction) -> DirectionSnapshot {
    DirectionSnapshot { timestamp, direction }
}

#[test]
fn trades_span_from_opening_snapshot_to_the_next_opening() {
    let snapshots = vec![
        snapshot(1674484800, Direction::Flat),
        snapshot(1674484860, Direction::Long),
        snapshot(1674484920, Direction::Long),
        snapshot(1674484980, Direction::Flat),
        snapshot(1674485040, Direction::Short),
        snapshot(1674485100, Direction::Short),
    ];
    let spans = calculate_trade_spans(&snapshots);
    assert_eq!(
        spans,
        vec![
            TradeSpan { start: 1674484860, end: 1674484980, direction: Direction::Long },
            TradeSpan { start: 1674485040, end: 1674485100, direction: Direction::Short },
        ]
    );
    let trades = calculate_trades_from_direction_snapshots(&snapshots);
    assert_eq!(trades.len(), 2);
    assert_eq!(trades[0].formatted_start_timestamp, "2023-01-23 09:41:00 AM");
    assert_eq!(trades[0].formatted_end_timestamp, "2023-01-23 09:43:00 AM");
    assert_eq!(trades[1].direction, Direction::Short);
    assert_eq!(trades[1].end_timestamp, 1674485100);
}

#[test]
fn flat_snapshots_alone_make_no_trade() {
    let snapshots = vec![snapshot(0, Direction::Flat), snapshot(60, Direction::Flat)];
    assert!(calculate_trade_spans(&snapshots).is_empty());
    assert!(calculate_trade_spans(&vec![]).is_empty());
}

#[test]
fn consecutive_trades_switch_direction_and_follow_in_time() {
    let snapshots = vec![
        snapshot(0, Direction::Long),
        snapshot(60, Direction::Short),
        snapshot(120, Direction::Flat),
        snapshot(180, Direction::Long),
    ];
    let spans = calculate_trade_spans(&snapshots);
    assert_eq!(spans.len(), 3);
    for k in 1..spans.len() {
        assert_ne!(spans[k].direction, spans[k - 1].direction);
        assert!(spans[k - 1].end < spans[k].start);
        assert_ne!(spans[k].direction, Direction::Flat);
    }
}

#[test]
fn direction_changes_split_snapshots_into_runs() {
    let directions = vec![
        Direction::Long,
        Direction::Short,
        Direction::Long,
        Direction::Long,
        Direction::Short,
        Direction::Short,
    ];
    let changes = build_direction_changes_from_signal_snapshots(&directions, 2);
    assert_eq!(
        changes,
        vec![
            DirectionChange { start_snapshot_index: 2, end_snapshot_index: Some(4) },
            DirectionChange { start_snapshot_index: 4, end_snapshot_index: Some(5) },
        ]
    );
}

#[test]
fn a_first_flat_snapshot_starts_no_run_but_a_later_one_does() {
    let directions = vec![Direction::Flat, Direction::Long, Direction::Flat];
    let changes = checked_build_direction_changes_from_signal_snapshots(&directions, 0).unwrap();
    assert_eq!(
        changes,
        vec![
            DirectionChange { start_snapshot_index: 1, end_snapshot_index: Some(2) },
            DirectionChange { start_snapshot_index: 2, end_snapshot_index: Some(2) },
        ]
    );
    assert_eq!(checked_build_direction_changes_from_signal_snapshots(&vec![Direction::Flat; 4], 0), None);
    assert_eq!(checked_build_direction_changes_from_signal_snapshots(&vec![Direction::Long; 4], 4), None);
}

#[test]
fn actions_between_directions() {
    assert_eq!(determine_action(Direction::Flat, Direction::Flat), Action::NoChange);
    assert_eq!(determine_action(Direction::Long, Direction::Flat), Action::Close);
    assert_eq!(determine_action(Direction::Flat, Direction::Short), Action::OpenNew);
    assert_eq!(determine_action(Direction::Long, Direction::Short), Action::SwitchDirection);
}

#[test]
fn signals_become_paired_trade_events() {
    let signal = |timestamp: i64, direction: Direction| Signal { grouping_key: 7, timestamp, direction };
    let signals = vec![
        signal(0, Direction::Flat),
        signal(60, Direction::Long),
        signal(120, Direction::Long),
        signal(180, Direction::Short),
        signal(240, Direction::Flat),
    ];
    let event = |timestamp: i64, trade_type: TradeType, direction: Direction| TradeEvent {
        grouping_key: 7,
        timestamp,
        trade_type,
        direction,
    };
    let trades = build_trades(&signals);
    assert_eq!(
        trades,
        vec![
            event(60, TradeType::Open, Direction::Long),
            event(180, TradeType::Close, Direction::Long),
            event(180, TradeType::Open, Direction::Short),
            event(240, TradeType::Close, Direction::Short),
        ]
    );
    // an even number of events exactly when the last signal is flat
    assert_eq!(trades.len() % 2, 0);
    let open_ended = build_trades(&signals[..4].to_vec());
    assert_eq!(open_ended.len() % 2, 1);
}

#[test]
fn first_hit_and_trade_exit() {
    assert_eq!(first_hit_index(&vec![false, false, true, true]), Some(2));
    assert_eq!(first_hit_index(&vec![false, false]), None);
    assert_eq!(find_trade_exit(&vec![false, false, true], &vec![false, true, true]), Some((Outcome::ProfitLimit, 1)));
    // the stop loss is checked first within a candle
    assert_eq!(find_trade_exit(&vec![false, true], &vec![false, true]), Some((Outcome::StopLoss, 1)));
    assert_eq!(find_trade_exit(&vec![false, false], &vec![false, false]), None);
}

#[test]
fn trade_outcome_picks_the_earlier_exit() {
    let timestamps = vec![100, 160, 220, 280];
    assert_eq!(determine_trade_outcome(&timestamps, None, None, 3), (BacktestOutcome::DirectionChange, 3));
    assert_eq!(determine_trade_outcome(&timestamps, Some(2), None, 3), (BacktestOutcome::StopLoss, 2));
    assert_eq!(determine_trade_outcome(&timestamps, None, Some(1), 3), (BacktestOutcome::ProfitLimit, 1));
    assert_eq!(determine_trade_outcome(&timestamps, Some(2), Some(1), 3), (BacktestOutcome::ProfitLimit, 1));
    assert_eq!(determine_trade_outcome(&timestamps, Some(1), Some(2), 3), (BacktestOutcome::StopLoss, 1));
    // a tie goes to the stop loss
    assert_eq!(determine_trade_outcome(&vec![100, 100], Some(1), Some(0), 1), (BacktestOutcome::StopLoss, 1));
}

#[test]
fn usize_ranges_include_the_maximum() {
    assert_eq!(build_usize_range(5, 29, 1).len(), 25);
    assert_eq!(build_usize_range(5, 29, 1)[24], 29);
    assert_eq!(build_usize_range(1, 10, 3), vec![1, 4, 7, 10]);
    assert_eq!(build_usize_range(1, 9, 3), vec![1, 4, 7]);
    assert_eq!(build_usize_range(4, 3, 1), Vec::<usize>::new());
}
