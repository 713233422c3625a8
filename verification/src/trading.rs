use vstd::prelude::*;

use crate::dates::{eastern_clock_text, format_timestamp, timestamp_in_chrono_range};
use crate::structs::Direction;

verus! {

/// The direction a strategy held at one point in time.
#[derive(PartialEq, Eq, Structural, Debug, Clone, Copy)]
pub struct DirectionSnapshot {
    pub timestamp: i64,
    pub direction: Direction,
}

/// A trade: the span of time during which one (non-flat) direction was held.
#[derive(Debug)]
pub struct Trade {
    pub start_timestamp: i64,
    pub end_timestamp: i64,
    pub formatted_start_timestamp: String,
    pub formatted_end_timestamp: String,
    pub direction: Direction,
}

/// The timestamps and direction of a trade, without the formatted text.
#[derive(PartialEq, Eq, Structural, Debug, Clone, Copy)]
pub struct TradeSpan {
    pub start: i64,
    pub end: i64,
    pub direction: Direction,
}

/// The direction held after reading the first `n` snapshots: the direction of
/// the most recent snapshot that opened a trade, or `Flat` before any did.
pub open spec fn held_direction(snapshots: Seq<DirectionSnapshot>, n: int) -> Direction
    decreases n,
{
    if n <= 0 {
        Direction::Flat
    } else {
        let held = held_direction(snapshots, n - 1);
        let d = snapshots[n - 1].direction;
        if d != Direction::Flat && d != held {
            d
        } else {
            held
        }
    }
}

/// Snapshot `i` opens a new trade: it is long or short and differs from the
/// direction held before it. A flat snapshot never closes a trade.
pub open spec fn opens_trade(snapshots: Seq<DirectionSnapshot>, i: int) -> bool {
    &&& snapshots[i].direction != Direction::Flat
    &&& snapshots[i].direction != held_direction(snapshots, i)
}

/// The trades formed by the first `n` snapshots: each opening snapshot starts a
/// trade, and every later snapshot up to the next opening one extends it.
pub open spec fn trade_spans(snapshots: Seq<DirectionSnapshot>, n: int) -> Seq<TradeSpan>
    decreases n,
{
    if n <= 0 {
        Seq::empty()
    } else {
        let prev = trade_spans(snapshots, n - 1);
        let s = snapshots[n - 1];
        if opens_trade(snapshots, n - 1) {
            prev.push(TradeSpan { start: s.timestamp, end: s.timestamp, direction: s.direction })
        } else if prev.len() > 0 {
            prev.update(
                prev.len() - 1,
                TradeSpan { start: prev.last().start, end: s.timestamp, direction: prev.last().direction },
            )
        } else {
            prev
        }
    }
}

/// The number of snapshots among the first `n` that open a trade.
pub open spec fn count_opens(snapshots: Seq<DirectionSnapshot>, n: int) -> nat
    decreases n,
{
    if n <= 0 {
        0
    } else {
        count_opens(snapshots, n - 1) + if opens_trade(snapshots, n - 1) { 1nat } else { 0nat }
    }
}

/// A trade and its span agree, and its formatted timestamps are chrono's text.
pub open spec fn trade_matches_span(trade: Trade, span: TradeSpan) -> bool {
    &&& trade.start_timestamp == span.start
    &&& trade.end_timestamp == span.end
    &&& trade.direction == span.direction
    &&& trade.formatted_start_timestamp@ == eastern_clock_text(span.start)
    &&& trade.formatted_end_timestamp@ == eastern_clock_text(span.end)
}

pub open spec fn all_timestamps_in_chrono_range(snapshots: Seq<DirectionSnapshot>) -> bool {
    forall|i: int| 0 <= i < snapshots.len() ==> timestamp_in_chrono_range(#[trigger] snapshots[i].timestamp)
}

/// The count, emptiness and last direction of the spans of the first `n` snapshots.
proof fn lemma_trade_spans_len(snapshots: Seq<DirectionSnapshot>, n: int)
    requires
        0 <= n <= snapshots.len(),
    ensures
        trade_spans(snapshots, n).len() == count_opens(snapshots, n),
        trade_spans(snapshots, n).len() <= n,
        trade_spans(snapshots, n).len() == 0 <==> held_direction(snapshots, n) == Direction::Flat,
        trade_spans(snapshots, n).len() > 0 ==> trade_spans(snapshots, n).last().direction
            == held_direction(snapshots, n),
    decreases n,
{
    if n > 0 {
        lemma_trade_spans_len(snapshots, n - 1);
    }
}

/// No span of the first `n` snapshots is flat.
proof fn lemma_trade_spans_not_flat(snapshots: Seq<DirectionSnapshot>, n: int)
    requires
        0 <= n <= snapshots.len(),
    ensures
        forall|k: int|
            0 <= k < trade_spans(snapshots, n).len() ==> (#[trigger] trade_spans(snapshots, n)[k]).direction
                != Direction::Flat,
    decreases n,
{
    if n > 0 {
        lemma_trade_spans_not_flat(snapshots, n - 1);
    }
}

/// Adjacent spans of the first `n` snapshots have different directions.
proof fn lemma_trade_spans_alternate(snapshots: Seq<DirectionSnapshot>, n: int)
    requires
        0 <= n <= snapshots.len(),
    ensures
        forall|k: int|
            0 <= k < trade_spans(snapshots, n).len() - 1 ==> (#[trigger] trade_spans(snapshots, n)[k]).direction
                != trade_spans(snapshots, n)[k + 1].direction,
    decreases n,
{
    if n > 0 {
        lemma_trade_spans_alternate(snapshots, n - 1);
        lemma_trade_spans_len(snapshots, n - 1);
        let prev = trade_spans(snapshots, n - 1);
        let cur = trade_spans(snapshots, n);
        assert forall|k: int| 0 <= k < cur.len() - 1 implies (#[trigger] cur[k]).direction != cur[k + 1].direction by {
            if opens_trade(snapshots, n - 1) {
                if k + 1 < prev.len() {
                    assert(cur[k] == prev[k] && cur[k + 1] == prev[k + 1]);
                } else {
                    assert(cur[k] == prev.last());
                }
            } else if prev.len() > 0 {
                if k + 1 < prev.len() - 1 {
                    assert(cur[k] == prev[k] && cur[k + 1] == prev[k + 1]);
                } else {
                    assert(cur[k] == prev[k]);
                    assert(cur[k + 1].direction == prev[k + 1].direction);
                }
            }
        }
    }
}

/// Every span of the first `n` snapshots starts and ends at timestamps that
/// chrono can represent, when all snapshot timestamps are representable.
proof fn lemma_trade_spans_in_range(snapshots: Seq<DirectionSnapshot>, n: int)
    requires
        0 <= n <= snapshots.len(),
        all_timestamps_in_chrono_range(snapshots),
    ensures
        forall|k: int|
            0 <= k < trade_spans(snapshots, n).len() ==> timestamp_in_chrono_range(
                (#[trigger] trade_spans(snapshots, n)[k]).start,
            ) && timestamp_in_chrono_range(trade_spans(snapshots, n)[k].end),
    decreases n,
{
    if n > 0 {
        lemma_trade_spans_in_range(snapshots, n - 1);
        let prev = trade_spans(snapshots, n - 1);
        let cur = trade_spans(snapshots, n);
        assert(timestamp_in_chrono_range(snapshots[n - 1].timestamp));
        assert forall|k: int| 0 <= k < cur.len() implies timestamp_in_chrono_range((#[trigger] cur[k]).start)
            && timestamp_in_chrono_range(cur[k].end) by {
            if k < prev.len() {
                assert(timestamp_in_chrono_range(prev[k].start));
            }
        }
    }
}

/// The snapshots are in strictly increasing time order.
pub open spec fn strictly_increasing_timestamps(snapshots: Seq<DirectionSnapshot>) -> bool {
    forall|i: int, j: int| 0 <= i < j < snapshots.len() ==> snapshots[i].timestamp < snapshots[j].timestamp
}

/// Each span starts no later than it ends and ends before the next one starts.
pub open spec fn spans_in_time_order(spans: Seq<TradeSpan>) -> bool {
    &&& forall|k: int| 0 <= k < spans.len() ==> (#[trigger] spans[k]).start <= spans[k].end
    &&& forall|i: int, j: int| 0 <= i < j < spans.len() ==> (#[trigger] spans[i]).end < (#[trigger] spans[j]).start
}

/// Every span ends no later than `t`.
pub open spec fn spans_end_by(spans: Seq<TradeSpan>, t: i64) -> bool {
    forall|k: int| 0 <= k < spans.len() ==> (#[trigger] spans[k]).end <= t
}

/// With snapshots in time order, the spans of the first `n` snapshots are in
/// time order and end no later than snapshot `n - 1`.
proof fn lemma_trade_spans_ordered(snapshots: Seq<DirectionSnapshot>, n: int)
    requires
        1 <= n <= snapshots.len(),
        strictly_increasing_timestamps(snapshots),
    ensures
        spans_in_time_order(trade_spans(snapshots, n)),
        spans_end_by(trade_spans(snapshots, n), snapshots[n - 1].timestamp),
    decreases n,
{
    let prev = trade_spans(snapshots, n - 1);
    let cur = trade_spans(snapshots, n);
    let t = snapshots[n - 1].timestamp;
    if n > 1 {
        lemma_trade_spans_ordered(snapshots, n - 1);
        assert(snapshots[n - 2].timestamp < t);
    }
    assert(n > 1 ==> spans_end_by(prev, snapshots[n - 2].timestamp));
    assert(n == 1 ==> prev.len() == 0);
    if opens_trade(snapshots, n - 1) {
        let span = TradeSpan { start: t, end: t, direction: snapshots[n - 1].direction };
        assert(cur == prev.push(span));
        lemma_push_keeps_order(prev, span, t);
    } else if prev.len() > 0 {
        let last = prev.last();
        let span = TradeSpan { start: last.start, end: t, direction: last.direction };
        assert(cur == prev.update(prev.len() - 1, span));
        lemma_extend_keeps_order(prev, t);
    } else {
        assert(cur == prev);
    }
}

/// Appending a span that starts after every existing span keeps time order.
proof fn lemma_push_keeps_order(prev: Seq<TradeSpan>, span: TradeSpan, t: i64)
    requires
        spans_in_time_order(prev),
        forall|k: int| 0 <= k < prev.len() ==> (#[trigger] prev[k]).end < t,
        span.start == t,
        span.end == t,
    ensures
        spans_in_time_order(prev.push(span)),
        spans_end_by(prev.push(span), t),
{
    let cur = prev.push(span);
    assert forall|i: int, j: int| 0 <= i < j < cur.len() implies (#[trigger] cur[i]).end < (#[trigger] cur[j]).start by {
        assert(cur[i] == prev[i]);
        if j < prev.len() {
            assert(cur[j] == prev[j]);
        }
    }
}

/// Moving the end of the last span to a later time `t` keeps time order.
proof fn lemma_extend_keeps_order(prev: Seq<TradeSpan>, t: i64)
    requires
        prev.len() > 0,
        spans_in_time_order(prev),
        forall|k: int| 0 <= k < prev.len() ==> (#[trigger] prev[k]).end < t,
    ensures
        spans_in_time_order(
            prev.update(
                prev.len() - 1,
                TradeSpan { start: prev.last().start, end: t, direction: prev.last().direction },
            ),
        ),
        spans_end_by(
            prev.update(
                prev.len() - 1,
                TradeSpan { start: prev.last().start, end: t, direction: prev.last().direction },
            ),
            t,
        ),
{
    let cur = prev.update(
        prev.len() - 1,
        TradeSpan { start: prev.last().start, end: t, direction: prev.last().direction },
    );
    assert forall|i: int, j: int| 0 <= i < j < cur.len() implies (#[trigger] cur[i]).end < (#[trigger] cur[j]).start by {
        assert(cur[i] == prev[i]);
        assert(cur[j].start == prev[j].start);
    }
    assert forall|k: int| 0 <= k < cur.len() implies (#[trigger] cur[k]).start <= cur[k].end by {
        if k < cur.len() - 1 {
            assert(cur[k] == prev[k]);
        } else {
            assert(prev[k].start <= prev[k].end);
        }
    }
}

/// When snapshots come in time order, each trade starts no later than it ends
/// and ends before the next trade starts.
pub proof fn law_trades_are_ordered_in_time(snapshots: Seq<DirectionSnapshot>)
    requires
        strictly_increasing_timestamps(snapshots),
    ensures
        spans_in_time_order(trade_spans(snapshots, snapshots.len() as int)),
{
    if snapshots.len() > 0 {
        lemma_trade_spans_ordered(snapshots, snapshots.len() as int);
    }
}

/// Every trade is long or short: a flat period never becomes a trade.
pub proof fn law_trades_are_never_flat(snapshots: Seq<DirectionSnapshot>, k: int)
    requires
        0 <= k < trade_spans(snapshots, snapshots.len() as int).len(),
    ensures
        trade_spans(snapshots, snapshots.len() as int)[k].direction != Direction::Flat,
{
    lemma_trade_spans_not_flat(snapshots, snapshots.len() as int);
}

/// Consecutive trades point in opposite directions: a trade only ends when the
/// strategy switches sides.
pub proof fn law_consecutive_trades_switch_direction(snapshots: Seq<DirectionSnapshot>, k: int)
    requires
        0 <= k < trade_spans(snapshots, snapshots.len() as int).len() - 1,
    ensures
        trade_spans(snapshots, snapshots.len() as int)[k].direction
            != trade_spans(snapshots, snapshots.len() as int)[k + 1].direction,
{
    lemma_trade_spans_alternate(snapshots, snapshots.len() as int);
}

/// There is exactly one trade per snapshot that opens one.
pub proof fn law_one_trade_per_opening_snapshot(snapshots: Seq<DirectionSnapshot>)
    ensures
        trade_spans(snapshots, snapshots.len() as int).len() == count_opens(snapshots, snapshots.len() as int),
{
    lemma_trade_spans_len(snapshots, snapshots.len() as int);
}

/// Computes the trade spans (timestamps and direction) of a sequence of
/// direction snapshots, in one pass, as `trade_spans` describes.
pub fn calculate_trade_spans(direction_snapshots: &Vec<DirectionSnapshot>) -> (spans: Vec<TradeSpan>)
    ensures
        spans@ == trade_spans(direction_snapshots@, direction_snapshots@.len() as int),
{
    let ghost snaps = direction_snapshots@;
    let mut spans: Vec<TradeSpan> = Vec::new();
    let mut current_direction = Direction::Flat;
    let n = direction_snapshots.len();
    for i in 0..n
        invariant
            n == snaps.len(),
            snaps == direction_snapshots@,
            spans@ == trade_spans(snaps, i as int),
            current_direction == held_direction(snaps, i as int),
    {
        let direction_snapshot = direction_snapshots[i];
        let should_open_new_bucket = match (current_direction, direction_snapshot.direction) {
            // stay in (no change)
            (Direction::Short, Direction::Short) => false,
            (Direction::Long, Direction::Long) => false,
            (Direction::Flat, Direction::Flat) => false,
            // stay in (a flat signal does not close)
            (Direction::Long, Direction::Flat) => false,
            (Direction::Short, Direction::Flat) => false,
            // open new
            (Direction::Flat, Direction::Long) => true,
            (Direction::Flat, Direction::Short) => true,
            // switch direction
            (Direction::Short, Direction::Long) => true,
            (Direction::Long, Direction::Short) => true,
        };
        if should_open_new_bucket {
            spans.push(
                TradeSpan {
                    start: direction_snapshot.timestamp,
                    end: direction_snapshot.timestamp,
                    direction: direction_snapshot.direction,
                },
            );
            current_direction = direction_snapshot.direction;
        } else if spans.len() > 0 {
            let last = spans.len() - 1;
            let span = spans[last];
            spans.set(
                last,
                TradeSpan { start: span.start, end: direction_snapshot.timestamp, direction: span.direction },
            );
        }
    }
    spans
}

/// Builds the trades that a sequence of direction snapshots describes.
///
/// Each snapshot that is long or short and differs from the direction
/// currently held opens a new trade; every other snapshot extends the open
/// trade (if any) to its timestamp. Trades never start from a flat snapshot.
pub fn calculate_trades_from_direction_snapshots(direction_snapshots: &Vec<DirectionSnapshot>) -> (trades: Vec<Trade>)
    requires
        all_timestamps_in_chrono_range(direction_snapshots@),
    ensures
        trades.len() == trade_spans(direction_snapshots@, direction_snapshots@.len() as int).len(),
        forall|k: int|
            0 <= k < trades.len() ==> trade_matches_span(
                #[trigger] trades[k],
                trade_spans(direction_snapshots@, direction_snapshots@.len() as int)[k],
            ),
{
    let spans = calculate_trade_spans(direction_snapshots);
    proof {
        lemma_trade_spans_in_range(direction_snapshots@, direction_snapshots@.len() as int);
    }
    let mut trades: Vec<Trade> = Vec::new();
    let num_spans = spans.len();
    for k in 0..num_spans
        invariant
            num_spans == spans.len(),
            forall|j: int|
                0 <= j < spans.len() ==> timestamp_in_chrono_range((#[trigger] spans@[j]).start)
                    && timestamp_in_chrono_range(spans@[j].end),
            trades.len() == k,
            forall|j: int| 0 <= j < k ==> trade_matches_span(#[trigger] trades[j], spans@[j]),
    {
        let span = spans[k];
        trades.push(
            Trade {
                start_timestamp: span.start,
                end_timestamp: span.end,
                formatted_start_timestamp: format_timestamp(span.start),
                formatted_end_timestamp: format_timestamp(span.end),
                direction: span.direction,
            },
        );
    }
    trades
}

/// The positions, in order, of the first `n` candles whose timestamps lie
/// within `[start, end]`.
pub open spec fn indices_within(timestamps: Seq<i64>, start: i64, end: i64, n: int) -> Seq<usize>
    decreases n,
{
    if n <= 0 {
        seq![]
    } else {
        indices_within(timestamps, start, end, n - 1) + if start <= timestamps[n - 1] && timestamps[n - 1] <= end {
            seq![(n - 1) as usize]
        } else {
            seq![]
        }
    }
}

/// The candles of a trade: the positions, in order, of the candles whose
/// timestamps lie from the trade's start to its end, both included.
pub fn trade_candle_indices(trade_start: i64, trade_end: i64, timestamps: &Vec<i64>) -> (indices: Vec<usize>)
    ensures
        indices@ == indices_within(timestamps@, trade_start, trade_end, timestamps.len() as int),
{
    let n = timestamps.len();
    let mut indices: Vec<usize> = Vec::new();
    for i in 0..n
        invariant
            n == timestamps.len(),
            indices@ == indices_within(timestamps@, trade_start, trade_end, i as int),
    {
        if trade_start <= timestamps[i] && timestamps[i] <= trade_end {
            indices.push(i);
        }
        assert(indices@ =~= indices_within(timestamps@, trade_start, trade_end, i + 1));
    }
    indices
}

} // verus!
