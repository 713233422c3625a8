use vstd::prelude::*;

use crate::signals::{direction_changes_of, is_direction_change, DirectionChange};
use crate::structs::Direction;
use crate::structs::BacktestMode;

verus! {

/// How many of the dates have at least one candle.
pub open spec fn count_nonempty(candle_counts: Seq<usize>) -> nat
    decreases candle_counts.len(),
{
    if candle_counts.len() == 0 {
        0
    } else {
        count_nonempty(candle_counts.drop_last()) + if candle_counts.last() > 0 {
            1nat
        } else {
            0nat
        }
    }
}

/// The number of dates a backtest covers: those with candles. `candle_counts[d]`
/// is the number of candles pulled for date `d`.
pub fn count_dates_with_candles(candle_counts: &Vec<usize>) -> (num_dates: usize)
    ensures
        num_dates == count_nonempty(candle_counts@),
        num_dates <= candle_counts.len(),
{
    let n = candle_counts.len();
    let mut num_dates: usize = 0;
    for i in 0..n
        invariant
            n == candle_counts.len(),
            num_dates == count_nonempty(candle_counts@.take(i as int)),
            num_dates <= i,
    {
        assert(candle_counts@.take(i + 1).drop_last() =~= candle_counts@.take(i as int));
        if candle_counts[i] > 0 {
            num_dates = num_dates + 1;
        }
    }
    assert(candle_counts@.take(n as int) =~= candle_counts@);
    num_dates
}

proof fn lemma_pair_index_below(a: int, b: int, i: int, m: int)
    by (nonlinear_arith)
    requires
        0 <= a < i,
        0 <= b < m,
    ensures
        0 <= a * m + b < i * m,
{
}

/// Every pairing of an indicator setting with a backtest setting, by position:
/// the indicator settings in order, and for each of them the backtest settings
/// in order.
pub fn pair_combinations(num_indicator_settings: usize, num_backtest_settings: usize) -> (pairs: Vec<(usize, usize)>)
    requires
        num_indicator_settings * num_backtest_settings <= usize::MAX,
    ensures
        pairs.len() == num_indicator_settings * num_backtest_settings,
        forall|i: int, j: int|
            0 <= i < num_indicator_settings && 0 <= j < num_backtest_settings ==> #[trigger] pairs@[i
                * num_backtest_settings + j] == (i as usize, j as usize),
{
    let n = num_indicator_settings;
    let m = num_backtest_settings;
    let mut pairs: Vec<(usize, usize)> = Vec::new();
    for i in 0..n
        invariant
            n * m <= usize::MAX,
            pairs.len() == i * m,
            forall|a: int, b: int| 0 <= a < i && 0 <= b < m ==> #[trigger] pairs@[a * m + b] == (a as usize, b as usize),
    {
        for j in 0..m
            invariant
                i < n,
                n * m <= usize::MAX,
                pairs.len() == i * m + j,
                forall|a: int, b: int|
                    0 <= a < i && 0 <= b < m ==> #[trigger] pairs@[a * m + b] == (a as usize, b as usize),
                forall|b: int| 0 <= b < j ==> #[trigger] pairs@[i * m + b] == (i, b as usize),
        {
            proof {
                assert((i + 1) * m <= n * m) by (nonlinear_arith)
                    requires
                        i < n,
                ;
                assert(i * m + j < (i + 1) * m) by (nonlinear_arith)
                    requires
                        j < m,
                ;
            }
            let ghost before = pairs@;
            pairs.push((i, j));
            proof {
                assert forall|a: int, b: int| 0 <= a < i && 0 <= b < m implies #[trigger] pairs@[a * m + b] == (
                    a as usize,
                    b as usize,
                ) by {
                    lemma_pair_index_below(a, b, i as int, m as int);
                    assert(pairs@[a * m + b] == before[a * m + b]);
                }
            }
        }
        proof {
            assert((i + 1) * m == i * m + m) by (nonlinear_arith);
            assert forall|a: int, b: int| 0 <= a < i + 1 && 0 <= b < m implies #[trigger] pairs@[a * m + b] == (
                a as usize,
                b as usize,
            ) by {
                if a == i {
                    assert(pairs@[i * m + b] == (i, b as usize));
                }
            }
        }
    }
    pairs
}

/// A direction change can be traded over: it has an end, and its window lies
/// within the snapshots.
pub open spec fn window_is_valid(change: DirectionChange, num_snapshots: int) -> bool {
    change.end_snapshot_index is Some && change.start_snapshot_index <= change.end_snapshot_index.unwrap()
        && change.end_snapshot_index.unwrap() <= num_snapshots
}

/// The windows of the direction changes, in order, leaving out the empty ones.
pub open spec fn trade_windows_upto(changes: Seq<DirectionChange>, n: int) -> Seq<(usize, usize)>
    decreases n,
{
    if n <= 0 {
        seq![]
    } else {
        let c = changes[n - 1];
        trade_windows_upto(changes, n - 1) + if c.start_snapshot_index < c.end_snapshot_index.unwrap() {
            seq![(c.start_snapshot_index, c.end_snapshot_index.unwrap())]
        } else {
            seq![]
        }
    }
}

/// The snapshot windows to backtest, one per direction change whose window is
/// not empty, or `None` when some direction change has no end or a window
/// that does not lie within the snapshots. Only single-entry backtests are
/// supported; a multiple-entry backtest gives `None` too.
pub fn trade_windows(changes: &Vec<DirectionChange>, num_snapshots: usize, mode: BacktestMode) -> (windows: Option<Vec<(usize, usize)>>)
    ensures
        match windows {
            Some(w) => {
                &&& mode == BacktestMode::SingleEntry
                &&& forall|k: int| 0 <= k < changes.len() ==> window_is_valid(#[trigger] changes@[k], num_snapshots as int)
                &&& w@ == trade_windows_upto(changes@, changes.len() as int)
            },
            None => mode == BacktestMode::MultipleEntry || exists|k: int|
                0 <= k < changes.len() && !window_is_valid(#[trigger] changes@[k], num_snapshots as int),
        },
{
    if mode == BacktestMode::MultipleEntry {
        return None;
    }
    let n = changes.len();
    let mut windows: Vec<(usize, usize)> = Vec::new();
    for i in 0..n
        invariant
            n == changes.len(),
            forall|k: int| 0 <= k < i ==> window_is_valid(#[trigger] changes@[k], num_snapshots as int),
            windows@ == trade_windows_upto(changes@, i as int),
    {
        let change = changes[i];
        match change.end_snapshot_index {
            None => {
                assert(!window_is_valid(changes@[i as int], num_snapshots as int));
                return None;
            },
            Some(end) => {
                if change.start_snapshot_index > end || end > num_snapshots {
                    assert(!window_is_valid(changes@[i as int], num_snapshots as int));
                    return None;
                }
                if change.start_snapshot_index < end {
                    windows.push((change.start_snapshot_index, end));
                }
                assert(windows@ =~= trade_windows_upto(changes@, i + 1));
            },
        }
    }
    Some(windows)
}

/// The runs that the direction-change builder produces can all be traded
/// over: each has an end, and its window lies within the snapshots.
pub proof fn law_direction_change_windows_are_valid(
    directions: Seq<Direction>,
    warmed_up_index: int,
    changes: Seq<DirectionChange>,
)
    requires
        direction_changes_of(directions, warmed_up_index, changes),
        directions.len() <= usize::MAX,
    ensures
        forall|k: int| 0 <= k < changes.len() ==> window_is_valid(#[trigger] changes[k], directions.len() as int),
{
    assert forall|k: int| 0 <= k < changes.len() implies window_is_valid(#[trigger] changes[k], directions.len() as int) by {
        let start = changes[k].start_snapshot_index as int;
        assert(is_direction_change(directions, warmed_up_index, start));
        assert(start < directions.len());
        if k + 1 < changes.len() {
            let next = changes[k + 1];
            assert(changes[k].end_snapshot_index == Some(next.start_snapshot_index));
            assert(changes[k].start_snapshot_index < next.start_snapshot_index);
            assert(is_direction_change(directions, warmed_up_index, next.start_snapshot_index as int));
            assert(next.start_snapshot_index < directions.len());
        } else {
            assert(k == changes.len() - 1);
            assert(changes.last() == changes[k]);
            assert(changes[k].end_snapshot_index == Some((directions.len() - 1) as usize));
        }
    }
}

} // verus!
