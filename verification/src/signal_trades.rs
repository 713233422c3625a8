use vstd::prelude::*;

use crate::structs::Direction;

verus! {

/// The direction a strategy wants at one candle, with the session it belongs to.
#[derive(PartialEq, Eq, Structural, Debug, Clone, Copy)]
pub struct Signal {
    pub grouping_key: i64,
    pub timestamp: i64,
    pub direction: Direction,
}

/// Whether a trade event opens or closes a position.
#[derive(PartialEq, Eq, Structural, Debug, Clone, Copy)]
pub enum TradeType {
    Open,
    Close,
}

/// What a new signal asks for, given the previous signal's direction.
#[derive(PartialEq, Eq, Structural, Debug, Clone, Copy)]
pub enum Action {
    NoChange,
    Close,
    OpenNew,
    SwitchDirection,
}

/// One opening or closing of a position.
#[derive(PartialEq, Eq, Structural, Debug, Clone, Copy)]
pub struct Trade {
    pub grouping_key: i64,
    pub timestamp: i64,
    pub trade_type: TradeType,
    pub direction: Direction,
}

/// The action for a signal of direction `next` after a signal of direction `last`.
pub open spec fn spec_action(last: Direction, next: Direction) -> Action {
    if last == next {
        Action::NoChange
    } else if next == Direction::Flat {
        Action::Close
    } else if last == Direction::Flat {
        Action::OpenNew
    } else {
        Action::SwitchDirection
    }
}

/// The trade events that signal `s` produces after a signal of direction `last`.
pub open spec fn action_events(last: Direction, s: Signal) -> Seq<Trade> {
    let close = Trade { grouping_key: s.grouping_key, timestamp: s.timestamp, trade_type: TradeType::Close, direction: last };
    let open = Trade { grouping_key: s.grouping_key, timestamp: s.timestamp, trade_type: TradeType::Open, direction: s.direction };
    match spec_action(last, s.direction) {
        Action::NoChange => Seq::empty(),
        Action::Close => seq![close],
        Action::OpenNew => seq![open],
        Action::SwitchDirection => seq![close, open],
    }
}

/// The direction of the signal before index `n`, or `Flat` at the start.
pub open spec fn previous_direction(signals: Seq<Signal>, n: int) -> Direction {
    if n <= 0 {
        Direction::Flat
    } else {
        signals[n - 1].direction
    }
}

/// The trade events produced by the first `n` signals.
pub open spec fn signal_trades(signals: Seq<Signal>, n: int) -> Seq<Trade>
    decreases n,
{
    if n <= 0 {
        Seq::empty()
    } else {
        signal_trades(signals, n - 1) + action_events(previous_direction(signals, n - 1), signals[n - 1])
    }
}

/// Trade events come in (open, close) pairs of one long or short direction:
/// even positions open, odd positions close the position opened just before.
pub open spec fn events_are_paired(events: Seq<Trade>) -> bool {
    &&& forall|i: int|
        0 <= i < events.len() ==> (#[trigger] events[i]).trade_type == if i % 2 == 0 {
            TradeType::Open
        } else {
            TradeType::Close
        }
    &&& forall|i: int| 0 <= i < events.len() && i % 2 == 0 ==> (#[trigger] events[i]).direction != Direction::Flat
    &&& forall|i: int, j: int|
        0 <= i && j == i + 1 && j < events.len() && i % 2 == 0 ==> (#[trigger] events[i]).direction == (
        #[trigger] events[j]).direction
}

/// Each opening event happens strictly before the event that closes it.
pub open spec fn pairs_close_after_open(events: Seq<Trade>) -> bool {
    forall|i: int, j: int|
        0 <= i && j == i + 1 && j < events.len() && i % 2 == 0 ==> (#[trigger] events[i]).timestamp < (
        #[trigger] events[j]).timestamp
}

/// The signals are in strictly increasing time order.
pub open spec fn signals_in_time_order(signals: Seq<Signal>) -> bool {
    forall|i: int, j: int| 0 <= i < j < signals.len() ==> (#[trigger] signals[i]).timestamp < (#[trigger] signals[j]).timestamp
}

/// The events of the first `n` signals are paired; a position is left open
/// exactly when the last of those signals is long or short.
proof fn lemma_signal_trades_paired(signals: Seq<Signal>, n: int)
    requires
        0 <= n <= signals.len(),
    ensures
        events_are_paired(signal_trades(signals, n)),
        (signal_trades(signals, n).len() % 2 == 1) == (previous_direction(signals, n) != Direction::Flat),
        signal_trades(signals, n).len() % 2 == 1 ==> signal_trades(signals, n).last().direction
            == previous_direction(signals, n),
    decreases n,
{
    if n > 0 {
        lemma_signal_trades_paired(signals, n - 1);
        let prev = signal_trades(signals, n - 1);
        let added = action_events(previous_direction(signals, n - 1), signals[n - 1]);
        let cur = signal_trades(signals, n);
        assert(cur == prev + added);
        assert forall|i: int| 0 <= i < prev.len() implies #[trigger] cur[i] == prev[i] by {}
        let p = prev.len() as int;
        assert forall|i: int| 0 <= i < cur.len() implies (#[trigger] cur[i]).trade_type == if i % 2 == 0 {
            TradeType::Open
        } else {
            TradeType::Close
        } by {
            if i >= p {
                assert(cur[i] == added[i - p]);
            }
        }
        assert forall|i: int| 0 <= i < cur.len() && i % 2 == 0 implies (#[trigger] cur[i]).direction
            != Direction::Flat by {
            if i >= p {
                assert(cur[i] == added[i - p]);
            }
        }
        assert forall|i: int, j: int|
            0 <= i && j == i + 1 && j < cur.len() && i % 2 == 0 implies (#[trigger] cur[i]).direction == (
            #[trigger] cur[j]).direction by {
            if j >= p {
                assert(cur[j] == added[j - p]);
                if i >= p {
                    assert(cur[i] == added[i - p]);
                } else {
                    assert(i == p - 1);
                    assert(prev.last() == prev[i]);
                }
            }
        }
    }
}

/// With signals in time order, the events of the first `n` signals close each
/// position after opening it, and none is later than signal `n - 1`.
proof fn lemma_signal_trades_timed(signals: Seq<Signal>, n: int)
    requires
        1 <= n <= signals.len(),
        signals_in_time_order(signals),
    ensures
        pairs_close_after_open(signal_trades(signals, n)),
        forall|i: int|
            0 <= i < signal_trades(signals, n).len() ==> (#[trigger] signal_trades(signals, n)[i]).timestamp
                <= signals[n - 1].timestamp,
    decreases n,
{
    lemma_signal_trades_paired(signals, n - 1);
    let prev = signal_trades(signals, n - 1);
    let added = action_events(previous_direction(signals, n - 1), signals[n - 1]);
    let cur = signal_trades(signals, n);
    let t = signals[n - 1].timestamp;
    assert(cur == prev + added);
    let p = prev.len() as int;
    if n > 1 {
        lemma_signal_trades_timed(signals, n - 1);
        assert(signals[n - 2].timestamp < t);
    } else {
        assert(p == 0);
    }
    assert forall|i: int| 0 <= i < cur.len() implies (#[trigger] cur[i]).timestamp <= t by {
        if i < p {
            assert(cur[i] == prev[i]);
        } else {
            assert(cur[i] == added[i - p]);
        }
    }
    assert forall|i: int, j: int|
        0 <= i && j == i + 1 && j < cur.len() && i % 2 == 0 implies (#[trigger] cur[i]).timestamp < (
        #[trigger] cur[j]).timestamp by {
        if j < p {
            assert(cur[i] == prev[i] && cur[j] == prev[j]);
        } else if i < p {
            assert(cur[i] == prev[i]);
            assert(cur[j] == added[j - p]);
            assert(prev[i].timestamp <= signals[n - 2].timestamp);
        } else {
            // both events come from signal n - 1: a switch yields (close, open),
            // so the pair cannot start at an even position inside it
            assert(cur[i] == added[i - p]);
            assert(cur[j] == added[j - p]);
            lemma_signal_trades_paired(signals, n);
        }
    }
}

/// The trade events come in (open, close) pairs of one long or short
/// direction; the event list has odd length exactly when the last signal
/// leaves a position open.
pub proof fn law_trade_events_are_paired(signals: Seq<Signal>)
    ensures
        events_are_paired(signal_trades(signals, signals.len() as int)),
        (signal_trades(signals, signals.len() as int).len() % 2 == 0) == (previous_direction(
            signals,
            signals.len() as int,
        ) == Direction::Flat),
{
    lemma_signal_trades_paired(signals, signals.len() as int);
}

/// With signals in strictly increasing time order, every position is closed at
/// a later time than it was opened.
pub proof fn law_positions_close_after_opening(signals: Seq<Signal>)
    requires
        signals_in_time_order(signals),
    ensures
        pairs_close_after_open(signal_trades(signals, signals.len() as int)),
{
    if signals.len() > 0 {
        lemma_signal_trades_timed(signals, signals.len() as int);
    }
}

/// Decides the action for a signal of direction `next` after one of direction `last`.
pub fn determine_action(last: Direction, next: Direction) -> (action: Action)
    ensures
        action == spec_action(last, next),
{
    match (last, next) {
        // stay in (no change)
        (Direction::Short, Direction::Short) => Action::NoChange,
        (Direction::Long, Direction::Long) => Action::NoChange,
        (Direction::Flat, Direction::Flat) => Action::NoChange,
        // get out (close)
        (Direction::Long, Direction::Flat) => Action::Close,
        (Direction::Short, Direction::Flat) => Action::Close,
        // open new
        (Direction::Flat, Direction::Long) => Action::OpenNew,
        (Direction::Flat, Direction::Short) => Action::OpenNew,
        // switch direction
        (Direction::Short, Direction::Long) => Action::SwitchDirection,
        (Direction::Long, Direction::Short) => Action::SwitchDirection,
    }
}

/// Turns a sequence of signals into opening and closing trade events: a change
/// from flat opens, a change to flat closes, and a change of side closes the old
/// position and opens the new one at the same signal.
pub fn build_trades(signals: &Vec<Signal>) -> (trades: Vec<Trade>)
    ensures
        trades@ == signal_trades(signals@, signals@.len() as int),
{
    let mut trades: Vec<Trade> = Vec::new();
    let mut last_direction = Direction::Flat;
    let n = signals.len();
    for i in 0..n
        invariant
            n == signals@.len(),
            trades@ == signal_trades(signals@, i as int),
            last_direction == previous_direction(signals@, i as int),
    {
        let signal = signals[i];
        let action = determine_action(last_direction, signal.direction);
        let ghost before = trades@;
        match action {
            Action::OpenNew => {
                trades.push(
                    Trade {
                        grouping_key: signal.grouping_key,
                        timestamp: signal.timestamp,
                        trade_type: TradeType::Open,
                        direction: signal.direction,
                    },
                );
            },
            Action::NoChange => {},
            Action::Close => {
                trades.push(
                    Trade {
                        grouping_key: signal.grouping_key,
                        timestamp: signal.timestamp,
                        trade_type: TradeType::Close,
                        direction: last_direction,
                    },
                );
            },
            Action::SwitchDirection => {
                trades.push(
                    Trade {
                        grouping_key: signal.grouping_key,
                        timestamp: signal.timestamp,
                        trade_type: TradeType::Close,
                        direction: last_direction,
                    },
                );
                trades.push(
                    Trade {
                        grouping_key: signal.grouping_key,
                        timestamp: signal.timestamp,
                        trade_type: TradeType::Open,
                        direction: signal.direction,
                    },
                );
            },
        }
        assert(trades@ == before + action_events(last_direction, signal));
        last_direction = signal.direction;
    }
    trades
}

} // verus!
