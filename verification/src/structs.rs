use vstd::prelude::*;

verus! {

/// The side a strategy wants to be on.
#[derive(PartialEq, Eq, Structural, Debug, Clone, Copy)]
pub enum Direction {
    Long,
    Short,
    Flat,
}

/// Why a backtested trade was exited.
#[derive(PartialEq, Eq, Structural, Debug, Clone, Copy)]
pub enum BacktestOutcome {
    ProfitLimit,
    StopLoss,
    DirectionChange,
}

/// How a backtested trade ended.
#[derive(PartialEq, Eq, Structural, Debug, Clone, Copy)]
pub enum Outcome {
    StopLoss,
    ProfitLimit,
    DirectionChange,
}

/// Whether a backtest allows one or several entries per direction change.
#[derive(PartialEq, Eq, Structural, Debug, Clone, Copy)]
pub enum BacktestMode {
    SingleEntry,
    MultipleEntry,
}

} // verus!
