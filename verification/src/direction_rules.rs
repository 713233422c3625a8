use vstd::prelude::*;

use crate::market_session::MarketSessionType;
use crate::structs::Direction;

verus! {

/// The direction of a moving-average crossover signal: flat until the
/// indicators are warmed up, outside the regular session, and on the last
/// candle of the regular session; otherwise long when the fast average is
/// above the slow one and short when it is not.
pub open spec fn spec_signal_direction(
    session: MarketSessionType,
    is_warmed_up: bool,
    seconds_to_regular_end: int,
    candle_size_seconds: int,
    fast_above_slow: bool,
) -> Direction {
    let is_last_candle = session == MarketSessionType::Regular && seconds_to_regular_end <= candle_size_seconds - 1;
    if !is_warmed_up || session == MarketSessionType::Pre || session == MarketSessionType::Post || is_last_candle {
        Direction::Flat
    } else if fast_above_slow {
        Direction::Long
    } else {
        Direction::Short
    }
}

/// Decides the direction of a signal at one candle; `seconds_to_regular_end`
/// is the time left until the end of the regular session.
pub fn signal_direction(
    session: MarketSessionType,
    is_warmed_up: bool,
    seconds_to_regular_end: i64,
    candle_size_seconds: i64,
    fast_above_slow: bool,
) -> (direction: Direction)
    ensures
        direction == spec_signal_direction(
            session,
            is_warmed_up,
            seconds_to_regular_end as int,
            candle_size_seconds as int,
            fast_above_slow,
        ),
{
    let is_last_candle = session == MarketSessionType::Regular && seconds_to_regular_end < candle_size_seconds;
    if !is_warmed_up || session == MarketSessionType::Pre || session == MarketSessionType::Post || is_last_candle {
        Direction::Flat
    } else if fast_above_slow {
        Direction::Long
    } else {
        Direction::Short
    }
}

/// The direction of the moving-average strategy at an instant: flat with no
/// candles yet, outside the regular session, and within the last five minutes
/// before the close (the close being 15:59:59); otherwise long when the fast
/// average is above the slow one and short when it is not.
pub open spec fn spec_snapshot_direction(
    has_candles: bool,
    session: MarketSessionType,
    seconds_to_close: int,
    fast_above_slow: bool,
) -> Direction {
    if !has_candles || session != MarketSessionType::Regular || seconds_to_close <= 299 {
        Direction::Flat
    } else if fast_above_slow {
        Direction::Long
    } else {
        Direction::Short
    }
}

/// Decides the strategy's direction at an instant; `seconds_to_close` is the
/// whole number of seconds from the instant to the end of the session.
pub fn snapshot_direction(has_candles: bool, session: MarketSessionType, seconds_to_close: i64, fast_above_slow: bool) -> (direction: Direction)
    ensures
        direction == spec_snapshot_direction(has_candles, session, seconds_to_close as int, fast_above_slow),
{
    if !has_candles {
        return Direction::Flat;
    }
    if session != MarketSessionType::Regular {
        return Direction::Flat;
    }
    if seconds_to_close <= 299 {
        return Direction::Flat;
    }
    if fast_above_slow {
        Direction::Long
    } else {
        Direction::Short
    }
}

/// In the regular session, a candle that reaches the session's end (fewer
/// seconds are left than the candle lasts) gets no position, whatever the
/// candle size.
pub proof fn law_last_candle_of_the_session_is_flat(
    is_warmed_up: bool,
    seconds_to_regular_end: int,
    candle_size_seconds: int,
    fast_above_slow: bool,
)
    requires
        seconds_to_regular_end < candle_size_seconds,
    ensures
        spec_signal_direction(
            MarketSessionType::Regular,
            is_warmed_up,
            seconds_to_regular_end,
            candle_size_seconds,
            fast_above_slow,
        ) == Direction::Flat,
{
}

/// A signal takes a position only once warmed up, inside the regular session
/// and on a candle that ends before the session does; the position is long
/// exactly when the fast average is above the slow one.
pub proof fn law_signals_trade_only_inside_the_session(
    session: MarketSessionType,
    is_warmed_up: bool,
    seconds_to_regular_end: int,
    candle_size_seconds: int,
    fast_above_slow: bool,
)
    ensures
        ({
            let direction = spec_signal_direction(
                session,
                is_warmed_up,
                seconds_to_regular_end,
                candle_size_seconds,
                fast_above_slow,
            );
            &&& direction != Direction::Flat ==> is_warmed_up && session != MarketSessionType::Pre && session
                != MarketSessionType::Post && !(session == MarketSessionType::Regular && seconds_to_regular_end
                < candle_size_seconds)
            &&& direction == Direction::Long ==> fast_above_slow
            &&& direction == Direction::Short ==> !fast_above_slow
        }),
{
}

/// The strategy holds no position in the last five minutes before the close
/// (fewer than 300 seconds left) nor outside the regular session; when it
/// holds one, it is long exactly when the fast average is above the slow one.
pub proof fn law_snapshots_are_flat_near_the_close(
    has_candles: bool,
    session: MarketSessionType,
    seconds_to_close: int,
    fast_above_slow: bool,
)
    ensures
        ({
            let direction = spec_snapshot_direction(has_candles, session, seconds_to_close, fast_above_slow);
            &&& seconds_to_close < 300 ==> direction == Direction::Flat
            &&& session != MarketSessionType::Regular ==> direction == Direction::Flat
            &&& direction != Direction::Flat ==> has_candles && session == MarketSessionType::Regular
                && seconds_to_close >= 300
            &&& direction == Direction::Long ==> fast_above_slow
            &&& direction == Direction::Short ==> !fast_above_slow
        }),
{
}

} // verus!
