use vstd::prelude::*;

use crate::dates::{eastern_fields, eastern_fields_of, timestamp_in_chrono_range};
use crate::structs::Direction;

verus! {

/// Whether an event opens or closes a trade.
#[derive(PartialEq, Eq, Structural, Debug, Clone, Copy)]
pub enum EventType {
    Open,
    Close,
}

/// Why an event happens.
#[derive(PartialEq, Eq, Structural, Debug, Clone, Copy)]
pub enum EventDescription {
    SwitchDirection,
    FireLong,
    FireShort,
}

/// What the event planner knows of one minute of the session.
#[derive(PartialEq, Eq, Structural, Debug, Clone, Copy)]
pub struct MinuteSignal {
    /// Enough candles came before this minute for the indicators.
    pub warmed_up: bool,
    /// The minute is the last of the regular session (15:59).
    pub is_end_of_day: bool,
    /// The direction the indicators give at this minute.
    pub direction: Direction,
}

/// A trade event at a minute; its price is taken at that minute's open,
/// with slippage against `direction`.
#[derive(PartialEq, Eq, Structural, Debug, Clone, Copy)]
pub struct PlannedEvent {
    /// The position of the minute among the session's minutes.
    pub minute: usize,
    pub event_type: EventType,
    pub description: EventDescription,
    /// The direction of the trade that the event opens or closes.
    pub direction: Direction,
}

pub open spec fn close_event(minute: int, direction: Direction) -> PlannedEvent {
    PlannedEvent {
        minute: minute as usize,
        event_type: EventType::Close,
        description: EventDescription::SwitchDirection,
        direction,
    }
}

pub open spec fn open_event(minute: int, direction: Direction) -> PlannedEvent {
    PlannedEvent {
        minute: minute as usize,
        event_type: EventType::Open,
        description: if direction == Direction::Long {
            EventDescription::FireLong
        } else {
            EventDescription::FireShort
        },
        direction,
    }
}

/// The planner's state: the direction of the last opened trade, whether a
/// trade was ever opened, the events so far, and whether the planner hit an
/// end of day with no event to close.
pub type PlanState = (Direction, bool, Seq<PlannedEvent>, bool);

/// One minute of planning. A change of direction closes the running trade
/// (once any trade was opened) and, except at the end of the day, opens one
/// in the new direction. At the end of the day the last event must be a
/// close; a close is added when it is not.
pub open spec fn plan_minute(state: PlanState, minute: int, signal: MinuteSignal) -> PlanState {
    let (last, started, events, stuck) = state;
    if stuck || !signal.warmed_up {
        state
    } else {
        let changed = signal.direction != last;
        let closed = if changed && started {
            events.push(close_event(minute, last))
        } else {
            events
        };
        let opens = changed && !signal.is_end_of_day;
        let opened = if opens {
            closed.push(open_event(minute, signal.direction))
        } else {
            closed
        };
        let last2 = if opens {
            signal.direction
        } else {
            last
        };
        let started2 = started || opens;
        if !signal.is_end_of_day {
            (last2, started2, opened, false)
        } else if opened.len() == 0 {
            (last2, started2, opened, true)
        } else if opened.last().event_type != EventType::Close {
            (last2, started2, opened.push(close_event(minute, last2)), false)
        } else {
            (last2, started2, opened, false)
        }
    }
}

/// The planner's state after the first `n` minutes.
pub open spec fn plan_prefix(signals: Seq<MinuteSignal>, n: int) -> PlanState
    decreases n,
{
    if n <= 0 {
        (Direction::Flat, false, seq![], false)
    } else {
        plan_minute(plan_prefix(signals, n - 1), n - 1, signals[n - 1])
    }
}

/// The events of a session, or `None` where planning fails: an end of day
/// with no event yet, or a session whose last event is not a close.
pub open spec fn spec_plan_events(signals: Seq<MinuteSignal>) -> Option<Seq<PlannedEvent>> {
    let state = plan_prefix(signals, signals.len() as int);
    if state.3 || (state.2.len() > 0 && state.2.last().event_type != EventType::Close) {
        None
    } else {
        Some(state.2)
    }
}

proof fn lemma_stuck_stays(signals: Seq<MinuteSignal>, i: int, n: int)
    requires
        0 <= i <= n,
        plan_prefix(signals, i).3,
    ensures
        plan_prefix(signals, n).3,
    decreases n - i,
{
    if i < n {
        lemma_stuck_stays(signals, i, n - 1);
    }
}

/// Plans the trade events of a session from its minutes, in order.
pub fn plan_events(signals: &Vec<MinuteSignal>) -> (events: Option<Vec<PlannedEvent>>)
    ensures
        match events {
            Some(e) => spec_plan_events(signals@) == Some(e@),
            None => spec_plan_events(signals@) is None,
        },
{
    let n = signals.len();
    let mut last = Direction::Flat;
    let mut started = false;
    let mut events: Vec<PlannedEvent> = Vec::new();
    for i in 0..n
        invariant
            n == signals.len(),
            plan_prefix(signals@, i as int) == (last, started, events@, false),
    {
        let signal = signals[i];
        if signal.warmed_up {
            let changed = signal.direction != last;
            if changed && started {
                events.push(PlannedEvent {
                    minute: i,
                    event_type: EventType::Close,
                    description: EventDescription::SwitchDirection,
                    direction: last,
                });
            }
            if changed && !signal.is_end_of_day {
                let description = if signal.direction == Direction::Long {
                    EventDescription::FireLong
                } else {
                    EventDescription::FireShort
                };
                events.push(
                    PlannedEvent { minute: i, event_type: EventType::Open, description, direction: signal.direction },
                );
                last = signal.direction;
                started = true;
            }
            if signal.is_end_of_day {
                let count = events.len();
                if count == 0 {
                    proof {
                        lemma_stuck_stays(signals@, i + 1, n as int);
                    }
                    return None;
                }
                if events[count - 1].event_type != EventType::Close {
                    events.push(
                        PlannedEvent {
                            minute: i,
                            event_type: EventType::Close,
                            description: EventDescription::SwitchDirection,
                            direction: last,
                        },
                    );
                }
            }
        }
    }
    let count = events.len();
    if count > 0 && events[count - 1].event_type != EventType::Close {
        return None;
    }
    Some(events)
}

/// Opens stand at even positions and closes at odd ones.
pub open spec fn alternates(events: Seq<PlannedEvent>) -> bool {
    forall|k: int|
        0 <= k < events.len() ==> (#[trigger] events[k]).event_type == if k % 2 == 0 {
            EventType::Open
        } else {
            EventType::Close
        }
}

/// Each close carries the direction of the open just before it, and comes
/// at a later minute than that open.
pub open spec fn closes_follow_opens(events: Seq<PlannedEvent>) -> bool {
    forall|j: int, k: int|
        0 <= j && k == j + 1 && k < events.len() && k % 2 == 1 ==> {
            &&& (#[trigger] events[k]).direction == (#[trigger] events[j]).direction
            &&& events[j].minute < events[k].minute
        }
}

/// What holds of the planner's state while no end of day has come.
pub open spec fn open_plan_invariant(state: PlanState, n: int) -> bool {
    let (last, started, events, stuck) = state;
    &&& !stuck
    &&& alternates(events)
    &&& closes_follow_opens(events)
    &&& started == (events.len() > 0)
    &&& !started ==> last == Direction::Flat
    &&& events.len() == 0 || events.len() % 2 == 1
    &&& events.len() % 2 == 1 ==> events.last().direction == last
    &&& forall|k: int| 0 <= k < events.len() ==> (#[trigger] events[k]).minute < n
}

proof fn lemma_open_plan(signals: Seq<MinuteSignal>, n: int)
    requires
        0 <= n <= signals.len(),
        signals.len() <= usize::MAX,
        forall|i: int| 0 <= i < n ==> !(#[trigger] signals[i]).is_end_of_day,
    ensures
        open_plan_invariant(plan_prefix(signals, n), n),
    decreases n,
{
    if n > 0 {
        lemma_open_plan(signals, n - 1);
        let (last, started, events, stuck) = plan_prefix(signals, n - 1);
        let signal = signals[n - 1];
        assert(!signal.is_end_of_day);
        if signal.warmed_up && signal.direction != last {
            let closed = if started {
                events.push(close_event(n - 1, last))
            } else {
                events
            };
            let opened = closed.push(open_event(n - 1, signal.direction));
            assert(plan_prefix(signals, n) == (signal.direction, true, opened, false));
            assert(alternates(opened)) by {
                assert forall|k: int| 0 <= k < opened.len() implies (#[trigger] opened[k]).event_type == if k
                    % 2 == 0 {
                    EventType::Open
                } else {
                    EventType::Close
                } by {
                    if k < events.len() {
                        assert(opened[k] == events[k]);
                    }
                }
            }
            assert(closes_follow_opens(opened)) by {
                assert forall|j: int, k: int|
                    0 <= j && k == j + 1 && k < opened.len() && k % 2 == 1 implies {
                    &&& (#[trigger] opened[k]).direction == (#[trigger] opened[j]).direction
                    &&& opened[j].minute < opened[k].minute
                } by {
                    if k < events.len() {
                        assert(opened[k] == events[k] && opened[j] == events[j]);
                    } else {
                        assert(started);
                        assert(k == events.len());
                        assert(opened[j] == events[j]);
                        assert(events.last() == events[j]);
                    }
                }
            }
        }
    }
}

/// Where only the last minute of a session can be its end of day, as in a
/// regular session walked minute by minute, the planned events pair up: an
/// even number of them, opens and closes in turn starting with an open, each
/// close carrying the direction of its open and coming at a later minute.
pub proof fn law_planned_events_pair_up(signals: Seq<MinuteSignal>)
    requires
        signals.len() <= usize::MAX,
        forall|i: int| 0 <= i < signals.len() - 1 ==> !(#[trigger] signals[i]).is_end_of_day,
    ensures
        match spec_plan_events(signals) {
            Some(events) => events.len() % 2 == 0 && alternates(events) && closes_follow_opens(events),
            None => true,
        },
{
    let n = signals.len() as int;
    if n > 0 {
        lemma_open_plan(signals, n - 1);
        let (last, started, events, stuck) = plan_prefix(signals, n - 1);
        let signal = signals[n - 1];
        if signal.warmed_up && signal.is_end_of_day {
            let changed = signal.direction != last;
            let closed = if changed && started {
                events.push(close_event(n - 1, last))
            } else {
                events
            };
            if closed.len() > 0 {
                let done = if closed.last().event_type != EventType::Close {
                    closed.push(close_event(n - 1, last))
                } else {
                    closed
                };
                assert(plan_prefix(signals, n).2 == done);
                assert(done.len() % 2 == 0);
                assert(alternates(done)) by {
                    assert forall|k: int| 0 <= k < done.len() implies (#[trigger] done[k]).event_type == if k
                        % 2 == 0 {
                        EventType::Open
                    } else {
                        EventType::Close
                    } by {
                        if k < events.len() {
                            assert(done[k] == events[k]);
                        }
                    }
                }
                assert(closes_follow_opens(done)) by {
                    assert forall|j: int, k: int|
                        0 <= j && k == j + 1 && k < done.len() && k % 2 == 1 implies {
                        &&& (#[trigger] done[k]).direction == (#[trigger] done[j]).direction
                        &&& done[j].minute < done[k].minute
                    } by {
                        if k < events.len() {
                            assert(done[k] == events[k] && done[j] == events[j]);
                        } else {
                            assert(done[j] == events[j]);
                            assert(events.last() == events[j]);
                        }
                    }
                }
            }
        } else if signal.warmed_up {
            lemma_open_plan(signals, n);
        } else {
            assert(plan_prefix(signals, n) == plan_prefix(signals, n - 1));
        }
    }
}

/// Once a warmed-up minute gives a direction, a trade has been opened.
proof fn lemma_started(signals: Seq<MinuteSignal>, m: int)
    requires
        0 <= m <= signals.len(),
        signals.len() <= usize::MAX,
        forall|i: int| 0 <= i < m ==> !(#[trigger] signals[i]).is_end_of_day,
        exists|i: int| 0 <= i < m && (#[trigger] signals[i]).warmed_up && signals[i].direction != Direction::Flat,
    ensures
        plan_prefix(signals, m).1,
    decreases m,
{
    let w = choose|i: int| 0 <= i < m && (#[trigger] signals[i]).warmed_up && signals[i].direction != Direction::Flat;
    lemma_open_plan(signals, m - 1);
    if w < m - 1 {
        lemma_started(signals, m - 1);
    }
    assert(plan_prefix(signals, m) == plan_minute(plan_prefix(signals, m - 1), m - 1, signals[m - 1]));
}

/// A session walked minute by minute to its end of day, in which some
/// warmed-up minute before the end of day gives a direction and the end of
/// day itself is warmed up, is always planned: the events come out.
pub proof fn law_planned_events_succeed(signals: Seq<MinuteSignal>)
    requires
        signals.len() <= usize::MAX,
        signals.len() > 0,
        forall|i: int| 0 <= i < signals.len() - 1 ==> !(#[trigger] signals[i]).is_end_of_day,
        signals.last().is_end_of_day,
        signals.last().warmed_up,
        exists|i: int|
            0 <= i < signals.len() - 1 && (#[trigger] signals[i]).warmed_up && signals[i].direction != Direction::Flat,
    ensures
        spec_plan_events(signals) is Some,
{
    let n = signals.len() as int;
    lemma_open_plan(signals, n - 1);
    lemma_started(signals, n - 1);
    let (last, started, events, stuck) = plan_prefix(signals, n - 1);
    assert(events.len() > 0);
    assert(events.len() % 2 == 1);
    let k = events.len() - 1;
    assert(events[k].event_type == EventType::Open);
    assert(events.last() == events[k]);
    assert(plan_prefix(signals, n) == plan_minute(plan_prefix(signals, n - 1), n - 1, signals[n - 1]));
    let signal = signals[n - 1];
    assert(signal == signals.last());
}

/// Whether a timestamp falls in the last minute of the regular session,
/// 15:59 US/Eastern.
pub fn is_end_of_day_minute(timestamp: i64) -> (last_minute: bool)
    requires
        timestamp_in_chrono_range(timestamp),
    ensures
        last_minute == (eastern_fields(timestamp).hour == 15 && eastern_fields(timestamp).minute == 59),
{
    let fields = eastern_fields_of(timestamp);
    fields.hour == 15 && fields.minute == 59
}

} // verus!
