use vstd::prelude::*;

use crate::structs::BacktestOutcome;

verus! {

/// The sign of a trade's profit or loss: above, below or at zero, or neither
/// (a profit figure that is not a number compares false every way).
#[derive(PartialEq, Eq, Structural, Debug, Clone, Copy)]
pub enum ProfitSign {
    Gain,
    Loss,
    Even,
    Undefined,
}

/// The counts that summarize a set of backtested trades.
#[derive(PartialEq, Eq, Structural, Debug, Clone, Copy)]
pub struct OutcomeTally {
    pub num_trades: usize,
    pub num_wins: usize,
    pub num_losses: usize,
    pub num_breakevens: usize,
    pub num_profit_limits: usize,
    pub num_stop_losses: usize,
    pub num_direction_changes: usize,
}

/// How many of `signs` are `sign`.
pub open spec fn count_sign(signs: Seq<ProfitSign>, sign: ProfitSign) -> nat
    decreases signs.len(),
{
    if signs.len() == 0 {
        0
    } else {
        count_sign(signs.drop_last(), sign) + if signs.last() == sign {
            1nat
        } else {
            0nat
        }
    }
}

/// How many of `outcomes` are `outcome`.
pub open spec fn count_outcome(outcomes: Seq<BacktestOutcome>, outcome: BacktestOutcome) -> nat
    decreases outcomes.len(),
{
    if outcomes.len() == 0 {
        0
    } else {
        count_outcome(outcomes.drop_last(), outcome) + if outcomes.last() == outcome {
            1nat
        } else {
            0nat
        }
    }
}

/// Counts wins, losses and breakevens by the sign of each trade's profit, and
/// profit limits, stop losses and direction changes by each trade's outcome.
/// `signs[i]` and `outcomes[i]` describe the same trade.
pub fn tally_backtest_results(signs: &Vec<ProfitSign>, outcomes: &Vec<BacktestOutcome>) -> (tally: OutcomeTally)
    requires
        signs.len() == outcomes.len(),
    ensures
        tally.num_trades == signs.len(),
        tally.num_wins == count_sign(signs@, ProfitSign::Gain),
        tally.num_losses == count_sign(signs@, ProfitSign::Loss),
        tally.num_breakevens == count_sign(signs@, ProfitSign::Even),
        tally.num_profit_limits == count_outcome(outcomes@, BacktestOutcome::ProfitLimit),
        tally.num_stop_losses == count_outcome(outcomes@, BacktestOutcome::StopLoss),
        tally.num_direction_changes == count_outcome(outcomes@, BacktestOutcome::DirectionChange),
{
    let n = signs.len();
    let mut tally = OutcomeTally {
        num_trades: n,
        num_wins: 0,
        num_losses: 0,
        num_breakevens: 0,
        num_profit_limits: 0,
        num_stop_losses: 0,
        num_direction_changes: 0,
    };
    for i in 0..n
        invariant
            n == signs.len(),
            n == outcomes.len(),
            tally.num_trades == n,
            tally.num_wins == count_sign(signs@.take(i as int), ProfitSign::Gain),
            tally.num_losses == count_sign(signs@.take(i as int), ProfitSign::Loss),
            tally.num_breakevens == count_sign(signs@.take(i as int), ProfitSign::Even),
            tally.num_profit_limits == count_outcome(outcomes@.take(i as int), BacktestOutcome::ProfitLimit),
            tally.num_stop_losses == count_outcome(outcomes@.take(i as int), BacktestOutcome::StopLoss),
            tally.num_direction_changes == count_outcome(
                outcomes@.take(i as int),
                BacktestOutcome::DirectionChange,
            ),
            tally.num_wins + tally.num_losses + tally.num_breakevens <= i,
            tally.num_profit_limits + tally.num_stop_losses + tally.num_direction_changes <= i,
    {
        assert(signs@.take(i + 1).drop_last() =~= signs@.take(i as int));
        assert(outcomes@.take(i + 1).drop_last() =~= outcomes@.take(i as int));
        match signs[i] {
            ProfitSign::Gain => {
                tally.num_wins = tally.num_wins + 1;
            },
            ProfitSign::Loss => {
                tally.num_losses = tally.num_losses + 1;
            },
            ProfitSign::Even => {
                tally.num_breakevens = tally.num_breakevens + 1;
            },
            ProfitSign::Undefined => {},
        }
        match outcomes[i] {
            BacktestOutcome::ProfitLimit => {
                tally.num_profit_limits = tally.num_profit_limits + 1;
            },
            BacktestOutcome::StopLoss => {
                tally.num_stop_losses = tally.num_stop_losses + 1;
            },
            BacktestOutcome::DirectionChange => {
                tally.num_direction_changes = tally.num_direction_changes + 1;
            },
        }
    }
    assert(signs@.take(n as int) =~= signs@);
    assert(outcomes@.take(n as int) =~= outcomes@);
    tally
}

proof fn lemma_outcomes_partition(outcomes: Seq<BacktestOutcome>)
    ensures
        count_outcome(outcomes, BacktestOutcome::ProfitLimit) + count_outcome(
            outcomes,
            BacktestOutcome::StopLoss,
        ) + count_outcome(outcomes, BacktestOutcome::DirectionChange) == outcomes.len(),
    decreases outcomes.len(),
{
    if outcomes.len() > 0 {
        lemma_outcomes_partition(outcomes.drop_last());
    }
}

proof fn lemma_signs_partition(signs: Seq<ProfitSign>)
    ensures
        count_sign(signs, ProfitSign::Gain) + count_sign(signs, ProfitSign::Loss) + count_sign(
            signs,
            ProfitSign::Even,
        ) + count_sign(signs, ProfitSign::Undefined) == signs.len(),
    decreases signs.len(),
{
    if signs.len() > 0 {
        lemma_signs_partition(signs.drop_last());
    }
}

/// Every trade ends in exactly one way: the profit limits, stop losses and
/// direction changes of a tally add up to its trades.
pub proof fn law_outcomes_cover_every_trade(outcomes: Seq<BacktestOutcome>)
    ensures
        count_outcome(outcomes, BacktestOutcome::ProfitLimit) + count_outcome(
            outcomes,
            BacktestOutcome::StopLoss,
        ) + count_outcome(outcomes, BacktestOutcome::DirectionChange) == outcomes.len(),
{
    lemma_outcomes_partition(outcomes);
}

/// Wins, losses and breakevens add up to the trades whose profit is a number.
pub proof fn law_wins_losses_breakevens_cover_numeric_trades(signs: Seq<ProfitSign>)
    ensures
        count_sign(signs, ProfitSign::Gain) + count_sign(signs, ProfitSign::Loss) + count_sign(
            signs,
            ProfitSign::Even,
        ) == signs.len() - count_sign(signs, ProfitSign::Undefined),
{
    lemma_signs_partition(signs);
}

} // verus!
