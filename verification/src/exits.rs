use vstd::prelude::*;

use crate::structs::{BacktestOutcome, Outcome};

verus! {

/// `index` is the first position where `hits` holds.
pub open spec fn is_first_hit(hits: Seq<bool>, index: int) -> bool {
    &&& 0 <= index < hits.len()
    &&& hits[index]
    &&& forall|j: int| 0 <= j < index ==> !hits[j]
}

/// Finds the first position where `hits` holds.
pub fn first_hit_index(hits: &Vec<bool>) -> (index: Option<usize>)
    ensures
        match index {
            Some(i) => is_first_hit(hits@, i as int),
            None => forall|j: int| 0 <= j < hits.len() ==> !hits@[j],
        },
{
    let n = hits.len();
    for i in 0..n
        invariant
            n == hits.len(),
            forall|j: int| 0 <= j < i ==> !hits@[j],
    {
        if hits[i] {
            return Some(i);
        }
    }
    None
}

/// Scans a trade's candles in order: at each candle the (worst case) stop loss
/// is checked before the (best case) profit limit, and the first hit ends the
/// trade. `stop_loss_hits[i]` and `profit_limit_hits[i]` tell whether candle
/// `i` reaches the stop loss or the profit limit. Returns `None` when no candle
/// does, in which case the trade runs until the direction changes.
pub fn find_trade_exit(stop_loss_hits: &Vec<bool>, profit_limit_hits: &Vec<bool>) -> (exit: Option<(Outcome, usize)>)
    requires
        stop_loss_hits.len() == profit_limit_hits.len(),
    ensures
        match exit {
            Some((outcome, i)) => {
                &&& i < stop_loss_hits.len()
                &&& stop_loss_hits@[i as int] || profit_limit_hits@[i as int]
                &&& forall|j: int| 0 <= j < i ==> !stop_loss_hits@[j] && !profit_limit_hits@[j]
                &&& outcome == if stop_loss_hits@[i as int] {
                    Outcome::StopLoss
                } else {
                    Outcome::ProfitLimit
                }
            },
            None => forall|j: int| 0 <= j < stop_loss_hits.len() ==> !stop_loss_hits@[j] && !profit_limit_hits@[j],
        },
{
    let n = stop_loss_hits.len();
    for i in 0..n
        invariant
            n == stop_loss_hits.len(),
            n == profit_limit_hits.len(),
            forall|j: int| 0 <= j < i ==> !stop_loss_hits@[j] && !profit_limit_hits@[j],
    {
        // worst case first, for the stop loss
        if stop_loss_hits[i] {
            return Some((Outcome::StopLoss, i));
        }
        // best case next, for the profit limit
        if profit_limit_hits[i] {
            return Some((Outcome::ProfitLimit, i));
        }
    }
    None
}

/// Where a trade followed over all its candles ends: at the first candle that
/// reaches the stop loss (checked first) or the profit limit, or, when none
/// does, by a direction change at its last candle.
pub fn trade_exit_or_last(stop_loss_hits: &Vec<bool>, profit_limit_hits: &Vec<bool>) -> (exit: (Outcome, usize))
    requires
        stop_loss_hits.len() == profit_limit_hits.len(),
        stop_loss_hits.len() > 0,
    ensures
        exit.1 < stop_loss_hits.len(),
        forall|j: int| 0 <= j < exit.1 ==> !stop_loss_hits@[j] && !profit_limit_hits@[j],
        exit.0 == if stop_loss_hits@[exit.1 as int] {
            Outcome::StopLoss
        } else if profit_limit_hits@[exit.1 as int] {
            Outcome::ProfitLimit
        } else {
            Outcome::DirectionChange
        },
        exit.0 == Outcome::DirectionChange ==> exit.1 == stop_loss_hits.len() - 1,
{
    match find_trade_exit(stop_loss_hits, profit_limit_hits) {
        Some(found) => found,
        None => (Outcome::DirectionChange, stop_loss_hits.len() - 1),
    }
}

/// The outcome of a trade given the first stop-loss and profit-limit snapshots
/// (by signal snapshot index), if any: with neither, the trade ends at its last
/// snapshot by a direction change; with one, that one; with both, the earlier
/// one by candle time, the stop loss winning ties.
pub open spec fn spec_trade_outcome(
    timestamps: Seq<i64>,
    stop_loss_index: Option<usize>,
    profit_limit_index: Option<usize>,
    trade_end_index: usize,
) -> (BacktestOutcome, usize) {
    match (stop_loss_index, profit_limit_index) {
        (None, None) => (BacktestOutcome::DirectionChange, trade_end_index),
        (Some(s), None) => (BacktestOutcome::StopLoss, s),
        (None, Some(p)) => (BacktestOutcome::ProfitLimit, p),
        (Some(s), Some(p)) => if timestamps[s as int] <= timestamps[p as int] {
            (BacktestOutcome::StopLoss, s)
        } else {
            (BacktestOutcome::ProfitLimit, p)
        },
    }
}

/// Decides how a trade ended. Performance snapshots are identified by the index
/// of their signal snapshot, and `timestamps[i]` is the candle time of signal
/// snapshot `i`. Returns the outcome and the index of the exit snapshot.
pub fn determine_trade_outcome(
    timestamps: &Vec<i64>,
    stop_loss_index: Option<usize>,
    profit_limit_index: Option<usize>,
    trade_end_index: usize,
) -> (result: (BacktestOutcome, usize))
    requires
        stop_loss_index is Some && profit_limit_index is Some ==> stop_loss_index.unwrap() < timestamps.len()
            && profit_limit_index.unwrap() < timestamps.len(),
    ensures
        result == spec_trade_outcome(timestamps@, stop_loss_index, profit_limit_index, trade_end_index),
{
    if stop_loss_index.is_none() && profit_limit_index.is_none() {
        return (BacktestOutcome::DirectionChange, trade_end_index);
    }
    if stop_loss_index.is_some() && profit_limit_index.is_none() {
        return (BacktestOutcome::StopLoss, stop_loss_index.unwrap());
    }
    if stop_loss_index.is_none() && profit_limit_index.is_some() {
        return (BacktestOutcome::ProfitLimit, profit_limit_index.unwrap());
    }
    // both a stop loss and a profit limit were reached: the earlier one wins
    let stop_loss_index = stop_loss_index.unwrap();
    let profit_limit_index = profit_limit_index.unwrap();
    if timestamps[stop_loss_index] <= timestamps[profit_limit_index] {
        (BacktestOutcome::StopLoss, stop_loss_index)
    } else {
        (BacktestOutcome::ProfitLimit, profit_limit_index)
    }
}

} // verus!
