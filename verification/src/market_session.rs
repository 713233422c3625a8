use vstd::prelude::*;

use crate::dates::{
    eastern_date_format, eastern_date_text, eastern_fields, eastern_fields_of, eastern_local_timestamp,
    eastern_timestamp_of, parse_date_time, parsed_date_time, timestamp_in_chrono_range, LocalFields,
};
use crate::strings::str_equals;

verus! {

/// The part of the US stock market trading day that an instant falls in.
#[derive(PartialEq, Eq, Structural, Debug, Clone, Copy)]
pub enum MarketSessionType {
    /// Outside every session.
    Closed,
    Pre,
    Regular,
    Post,
}

/// An instant: a Unix timestamp in seconds and the nanoseconds past it.
#[derive(PartialEq, Eq, Structural, Debug, Clone, Copy)]
pub struct Instant {
    pub timestamp: i64,
    pub nanosecond: u32,
}

/// An instant that chrono can represent, outside leap seconds.
pub open spec fn valid_instant(instant: Instant) -> bool {
    timestamp_in_chrono_range(instant.timestamp) && instant.nanosecond < 1_000_000_000
}

/// The US/Eastern timestamp of `hour:minute:second` on the local date of `fields`.
pub open spec fn time_on_day(fields: LocalFields, hour: u32, minute: u32, second: u32) -> Option<i64> {
    eastern_local_timestamp(fields.year, fields.month, fields.day, hour, minute, second)
}

/// All six session boundaries of the local date of `fields` exist in US/Eastern:
/// 4:00:00, 9:29:59, 9:30:00, 15:59:59, 16:00:00 and 19:59:59.
pub open spec fn session_bounds_exist(fields: LocalFields) -> bool {
    &&& time_on_day(fields, 4, 0, 0) is Some
    &&& time_on_day(fields, 9, 29, 59) is Some
    &&& time_on_day(fields, 9, 30, 0) is Some
    &&& time_on_day(fields, 15, 59, 59) is Some
    &&& time_on_day(fields, 16, 0, 0) is Some
    &&& time_on_day(fields, 19, 59, 59) is Some
}

/// `instant` lies in the whole-second session `[start, end]`, both ends
/// included; an instant part of the way through a second counts as that
/// whole second.
pub open spec fn within(instant: Instant, start: Option<i64>, end: Option<i64>) -> bool {
    start.unwrap() <= instant.timestamp && instant.timestamp <= end.unwrap()
}

/// The session of a weekday instant, from the boundaries of its local date:
/// pre-market 4:00:00 to 9:29:59, regular 9:30:00 to 15:59:59, after hours
/// 16:00:00 to 19:59:59, each including its last second.
pub open spec fn session_of_day(instant: Instant, fields: LocalFields) -> MarketSessionType {
    if within(instant, time_on_day(fields, 4, 0, 0), time_on_day(fields, 9, 29, 59)) {
        MarketSessionType::Pre
    } else if within(instant, time_on_day(fields, 9, 30, 0), time_on_day(fields, 15, 59, 59)) {
        MarketSessionType::Regular
    } else if within(instant, time_on_day(fields, 16, 0, 0), time_on_day(fields, 19, 59, 59)) {
        MarketSessionType::Post
    } else {
        MarketSessionType::Closed
    }
}

pub open spec fn is_weekend(fields: LocalFields) -> bool {
    fields.weekday == 5 || fields.weekday == 6
}

/// The session of an instant: none on weekends, otherwise by the time of day.
pub open spec fn spec_session_type(instant: Instant) -> MarketSessionType {
    let fields = eastern_fields(instant.timestamp);
    if is_weekend(fields) {
        MarketSessionType::Closed
    } else {
        session_of_day(instant, fields)
    }
}

/// Whether `instant` lies in the session from `start` to `end`, both whole
/// seconds included.
fn is_during(instant: Instant, start: i64, end: i64) -> (during: bool)
    ensures
        during == within(instant, Some(start), Some(end)),
{
    start <= instant.timestamp && instant.timestamp <= end
}

/// Classifies a US/Eastern instant into a market session.
pub fn determine_session_type(eastern_now: Instant) -> (session: MarketSessionType)
    requires
        valid_instant(eastern_now),
        session_bounds_exist(eastern_fields(eastern_now.timestamp)),
    ensures
        session == spec_session_type(eastern_now),
{
    let fields = eastern_fields_of(eastern_now.timestamp);
    // premarket: 4am -> 9:29:59am
    let pre_market_start = eastern_timestamp_of(fields.year, fields.month, fields.day, 4, 0, 0).unwrap();
    let pre_market_end = eastern_timestamp_of(fields.year, fields.month, fields.day, 9, 29, 59).unwrap();
    let is_during_pre_market = is_during(eastern_now, pre_market_start, pre_market_end);
    // regular: 9:30am -> 3:59:59pm
    let regular_market_start = eastern_timestamp_of(fields.year, fields.month, fields.day, 9, 30, 0).unwrap();
    let regular_market_end = eastern_timestamp_of(fields.year, fields.month, fields.day, 15, 59, 59).unwrap();
    let is_during_regular_market = is_during(eastern_now, regular_market_start, regular_market_end);
    // aftermarket: 4:00pm -> 7:59:59pm
    let after_market_start = eastern_timestamp_of(fields.year, fields.month, fields.day, 16, 0, 0).unwrap();
    let after_market_end = eastern_timestamp_of(fields.year, fields.month, fields.day, 19, 59, 59).unwrap();
    let is_during_after_market = is_during(eastern_now, after_market_start, after_market_end);
    // weekend
    let is_weekend = fields.weekday == 5 || fields.weekday == 6;
    if is_weekend {
        MarketSessionType::Closed
    } else if is_during_pre_market {
        MarketSessionType::Pre
    } else if is_during_regular_market {
        MarketSessionType::Regular
    } else if is_during_after_market {
        MarketSessionType::Post
    } else {
        MarketSessionType::Closed
    }
}

/// Classifies a US/Eastern instant into a market session, or returns `None`
/// when one of the session boundaries of its local date does not exist as a
/// single US/Eastern time.
pub fn checked_determine_session_type(eastern_now: Instant) -> (session: Option<MarketSessionType>)
    requires
        valid_instant(eastern_now),
    ensures
        session == if session_bounds_exist(eastern_fields(eastern_now.timestamp)) {
            Some(spec_session_type(eastern_now))
        } else {
            None::<MarketSessionType>
        },
{
    let fields = eastern_fields_of(eastern_now.timestamp);
    if session_bounds_available(fields) {
        Some(determine_session_type(eastern_now))
    } else {
        None
    }
}

/// Checks that all six session boundaries of the local date of `fields` exist.
pub fn session_bounds_available(fields: LocalFields) -> (available: bool)
    ensures
        available == session_bounds_exist(fields),
{
    eastern_timestamp_of(fields.year, fields.month, fields.day, 4, 0, 0).is_some()
        && eastern_timestamp_of(fields.year, fields.month, fields.day, 9, 29, 59).is_some()
        && eastern_timestamp_of(fields.year, fields.month, fields.day, 9, 30, 0).is_some()
        && eastern_timestamp_of(fields.year, fields.month, fields.day, 15, 59, 59).is_some()
        && eastern_timestamp_of(fields.year, fields.month, fields.day, 16, 0, 0).is_some()
        && eastern_timestamp_of(fields.year, fields.month, fields.day, 19, 59, 59).is_some()
}

/// Both given times of the local date of `fields` exist as single US/Eastern times.
pub open spec fn day_times_exist(fields: LocalFields, start: (u32, u32, u32), end: (u32, u32, u32)) -> bool {
    &&& time_on_day(fields, start.0, start.1, start.2) is Some
    &&& time_on_day(fields, end.0, end.1, end.2) is Some
}

/// The timestamps of the two given times on the local date of `fields`.
pub open spec fn day_times(fields: LocalFields, start: (u32, u32, u32), end: (u32, u32, u32)) -> (i64, i64) {
    (time_on_day(fields, start.0, start.1, start.2).unwrap(), time_on_day(fields, end.0, end.1, end.2).unwrap())
}

/// The timestamps of two times on the US/Eastern date of `timestamp`.
fn times_on_date_of(timestamp: i64, start: (u32, u32, u32), end: (u32, u32, u32)) -> (range: (i64, i64))
    requires
        timestamp_in_chrono_range(timestamp),
        day_times_exist(eastern_fields(timestamp), start, end),
    ensures
        range == day_times(eastern_fields(timestamp), start, end),
{
    let fields = eastern_fields_of(timestamp);
    let start = eastern_timestamp_of(fields.year, fields.month, fields.day, start.0, start.1, start.2).unwrap();
    let end = eastern_timestamp_of(fields.year, fields.month, fields.day, end.0, end.1, end.2).unwrap();
    (start, end)
}

/// The extended session used for backtests, 7:00:00 to 15:59:59 on the
/// US/Eastern date of `eastern_now`, as Unix timestamps.
pub fn get_extended_market_session_start_and_end(eastern_now: i64) -> (range: (i64, i64))
    requires
        timestamp_in_chrono_range(eastern_now),
        day_times_exist(eastern_fields(eastern_now), (7, 0, 0), (15, 59, 59)),
    ensures
        range == day_times(eastern_fields(eastern_now), (7, 0, 0), (15, 59, 59)),
{
    times_on_date_of(eastern_now, (7, 0, 0), (15, 59, 59))
}

/// As `get_extended_market_session_start_and_end`, or `None` when a bound does
/// not exist as a single US/Eastern time.
pub fn checked_get_extended_market_session_start_and_end(eastern_now: i64) -> (range: Option<(i64, i64)>)
    requires
        timestamp_in_chrono_range(eastern_now),
    ensures
        range == if day_times_exist(eastern_fields(eastern_now), (7, 0, 0), (15, 59, 59)) {
            Some(day_times(eastern_fields(eastern_now), (7, 0, 0), (15, 59, 59)))
        } else {
            None::<(i64, i64)>
        },
{
    let fields = eastern_fields_of(eastern_now);
    if eastern_timestamp_of(fields.year, fields.month, fields.day, 7, 0, 0).is_some()
        && eastern_timestamp_of(fields.year, fields.month, fields.day, 15, 59, 59).is_some() {
        Some(get_extended_market_session_start_and_end(eastern_now))
    } else {
        None
    }
}

/// The regular session, 9:30:00 to 15:59:59 on the US/Eastern date of
/// `eastern_now`, as Unix timestamps.
pub fn get_regular_market_session_start_and_end(eastern_now: i64) -> (range: (i64, i64))
    requires
        timestamp_in_chrono_range(eastern_now),
        day_times_exist(eastern_fields(eastern_now), (9, 30, 0), (15, 59, 59)),
    ensures
        range == day_times(eastern_fields(eastern_now), (9, 30, 0), (15, 59, 59)),
{
    times_on_date_of(eastern_now, (9, 30, 0), (15, 59, 59))
}

/// As `get_regular_market_session_start_and_end`, or `None` when a bound does
/// not exist as a single US/Eastern time.
pub fn checked_get_regular_market_session_start_and_end(eastern_now: i64) -> (range: Option<(i64, i64)>)
    requires
        timestamp_in_chrono_range(eastern_now),
    ensures
        range == if day_times_exist(eastern_fields(eastern_now), (9, 30, 0), (15, 59, 59)) {
            Some(day_times(eastern_fields(eastern_now), (9, 30, 0), (15, 59, 59)))
        } else {
            None::<(i64, i64)>
        },
{
    let fields = eastern_fields_of(eastern_now);
    if eastern_timestamp_of(fields.year, fields.month, fields.day, 9, 30, 0).is_some()
        && eastern_timestamp_of(fields.year, fields.month, fields.day, 15, 59, 59).is_some() {
        Some(get_regular_market_session_start_and_end(eastern_now))
    } else {
        None
    }
}

/// The one-minute candle that `eastern_now` falls in: from second 0 to second
/// 59 of its US/Eastern minute. Only a `"1"` (one minute) resolution exists.
pub fn get_current_candle_start_and_stop(resolution: &str, eastern_now: i64) -> (range: (i64, i64))
    requires
        resolution@ == "1"@,
        timestamp_in_chrono_range(eastern_now),
        day_times_exist(
            eastern_fields(eastern_now),
            (eastern_fields(eastern_now).hour, eastern_fields(eastern_now).minute, 0),
            (eastern_fields(eastern_now).hour, eastern_fields(eastern_now).minute, 59),
        ),
    ensures
        range == day_times(
            eastern_fields(eastern_now),
            (eastern_fields(eastern_now).hour, eastern_fields(eastern_now).minute, 0),
            (eastern_fields(eastern_now).hour, eastern_fields(eastern_now).minute, 59),
        ),
{
    let fields = eastern_fields_of(eastern_now);
    times_on_date_of(eastern_now, (fields.hour, fields.minute, 0), (fields.hour, fields.minute, 59))
}

/// As `get_current_candle_start_and_stop`, or `None` when the resolution is
/// not `"1"` or a bound does not exist as a single US/Eastern time.
pub fn checked_get_current_candle_start_and_stop(resolution: &str, eastern_now: i64) -> (range: Option<(i64, i64)>)
    requires
        timestamp_in_chrono_range(eastern_now),
    ensures
        range == if resolution@ == "1"@ && day_times_exist(
            eastern_fields(eastern_now),
            (eastern_fields(eastern_now).hour, eastern_fields(eastern_now).minute, 0),
            (eastern_fields(eastern_now).hour, eastern_fields(eastern_now).minute, 59),
        ) {
            Some(
                day_times(
                    eastern_fields(eastern_now),
                    (eastern_fields(eastern_now).hour, eastern_fields(eastern_now).minute, 0),
                    (eastern_fields(eastern_now).hour, eastern_fields(eastern_now).minute, 59),
                ),
            )
        } else {
            None::<(i64, i64)>
        },
{
    if !str_equals(resolution, "1") {
        return None;
    }
    let fields = eastern_fields_of(eastern_now);
    if eastern_timestamp_of(fields.year, fields.month, fields.day, fields.hour, fields.minute, 0).is_some()
        && eastern_timestamp_of(fields.year, fields.month, fields.day, fields.hour, fields.minute, 59).is_some() {
        Some(get_current_candle_start_and_stop(resolution, eastern_now))
    } else {
        None
    }
}


/// The Unix timestamp of the US/Eastern local time that `input`
/// (`%Y-%m-%d %H:%M:%S`) spells, when it parses and is a single US/Eastern time.
pub open spec fn parsed_eastern_timestamp(input: Seq<char>) -> Option<i64> {
    match parsed_date_time(input) {
        Some(f) => eastern_local_timestamp(f.year, f.month, f.day, f.hour, f.minute, f.second),
        None => None,
    }
}

/// Parses a `%Y-%m-%d %H:%M:%S` text as US/Eastern local time.
pub fn parse_eastern_date_time(input: &str) -> (timestamp: Option<i64>)
    ensures
        timestamp == parsed_eastern_timestamp(input@),
        timestamp matches Some(t) ==> timestamp_in_chrono_range(t),
{
    match parse_date_time(input) {
        Some(f) => eastern_timestamp_of(f.year, f.month, f.day, f.hour, f.minute, f.second),
        None => None,
    }
}

/// The extended session (7:00:00 to 15:59:59) of the US/Eastern date that `input` spells.
pub fn get_extended_market_session_start_and_end_from_string(input: &str) -> (range: (i64, i64))
    requires
        parsed_eastern_timestamp(input@) is Some,
        day_times_exist(eastern_fields(parsed_eastern_timestamp(input@).unwrap()), (7, 0, 0), (15, 59, 59)),
    ensures
        range == day_times(eastern_fields(parsed_eastern_timestamp(input@).unwrap()), (7, 0, 0), (15, 59, 59)),
{
    let eastern_input = parse_eastern_date_time(input).unwrap();
    times_on_date_of(eastern_input, (7, 0, 0), (15, 59, 59))
}

/// As `get_extended_market_session_start_and_end_from_string`, or `None` when the input does not parse, is not a single
/// US/Eastern time, or a bound does not exist as a single US/Eastern time.
pub fn checked_get_extended_market_session_start_and_end_from_string(input: &str) -> (range: Option<(i64, i64)>)
    ensures
        range == match parsed_eastern_timestamp(input@) {
            Some(t) => if day_times_exist(eastern_fields(t), (7, 0, 0), (15, 59, 59)) {
                Some(day_times(eastern_fields(t), (7, 0, 0), (15, 59, 59)))
            } else {
                None::<(i64, i64)>
            },
            None => None::<(i64, i64)>,
        },
{
    match parse_eastern_date_time(input) {
        Some(eastern_input) => {
            let fields = eastern_fields_of(eastern_input);
            if eastern_timestamp_of(fields.year, fields.month, fields.day, 7, 0, 0).is_some()
                && eastern_timestamp_of(fields.year, fields.month, fields.day, 15, 59, 59).is_some() {
                Some(get_extended_market_session_start_and_end_from_string(input))
            } else {
                None
            }
        },
        None => None,
    }
}

/// The regular session (9:30:00 to 15:59:59) of the US/Eastern date that `input` spells.
pub fn get_regular_market_session_start_and_end_from_string(input: &str) -> (range: (i64, i64))
    requires
        parsed_eastern_timestamp(input@) is Some,
        day_times_exist(eastern_fields(parsed_eastern_timestamp(input@).unwrap()), (9, 30, 0), (15, 59, 59)),
    ensures
        range == day_times(eastern_fields(parsed_eastern_timestamp(input@).unwrap()), (9, 30, 0), (15, 59, 59)),
{
    let eastern_input = parse_eastern_date_time(input).unwrap();
    times_on_date_of(eastern_input, (9, 30, 0), (15, 59, 59))
}

/// As `get_regular_market_session_start_and_end_from_string`, or `None` when the input does not parse, is not a single
/// US/Eastern time, or a bound does not exist as a single US/Eastern time.
pub fn checked_get_regular_market_session_start_and_end_from_string(input: &str) -> (range: Option<(i64, i64)>)
    ensures
        range == match parsed_eastern_timestamp(input@) {
            Some(t) => if day_times_exist(eastern_fields(t), (9, 30, 0), (15, 59, 59)) {
                Some(day_times(eastern_fields(t), (9, 30, 0), (15, 59, 59)))
            } else {
                None::<(i64, i64)>
            },
            None => None::<(i64, i64)>,
        },
{
    match parse_eastern_date_time(input) {
        Some(eastern_input) => {
            let fields = eastern_fields_of(eastern_input);
            if eastern_timestamp_of(fields.year, fields.month, fields.day, 9, 30, 0).is_some()
                && eastern_timestamp_of(fields.year, fields.month, fields.day, 15, 59, 59).is_some() {
                Some(get_regular_market_session_start_and_end_from_string(input))
            } else {
                None
            }
        },
        None => None,
    }
}

/// The regular session with a 16:00:00 close (9:30:00 to 16:00:00) of the US/Eastern
/// date that `input` spells.
pub fn get_regular_market_start_end_from_string(input: &str) -> (range: (i64, i64))
    requires
        parsed_eastern_timestamp(input@) is Some,
        day_times_exist(eastern_fields(parsed_eastern_timestamp(input@).unwrap()), (9, 30, 0), (16, 0, 0)),
    ensures
        range == day_times(eastern_fields(parsed_eastern_timestamp(input@).unwrap()), (9, 30, 0), (16, 0, 0)),
{
    let eastern_input = parse_eastern_date_time(input).unwrap();
    times_on_date_of(eastern_input, (9, 30, 0), (16, 0, 0))
}

/// As `get_regular_market_start_end_from_string`, or `None` when the input does not parse, is not a single
/// US/Eastern time, or a bound does not exist as a single US/Eastern time.
pub fn checked_get_regular_market_start_end_from_string(input: &str) -> (range: Option<(i64, i64)>)
    ensures
        range == match parsed_eastern_timestamp(input@) {
            Some(t) => if day_times_exist(eastern_fields(t), (9, 30, 0), (16, 0, 0)) {
                Some(day_times(eastern_fields(t), (9, 30, 0), (16, 0, 0)))
            } else {
                None::<(i64, i64)>
            },
            None => None::<(i64, i64)>,
        },
{
    match parse_eastern_date_time(input) {
        Some(eastern_input) => {
            let fields = eastern_fields_of(eastern_input);
            if eastern_timestamp_of(fields.year, fields.month, fields.day, 9, 30, 0).is_some()
                && eastern_timestamp_of(fields.year, fields.month, fields.day, 16, 0, 0).is_some() {
                Some(get_regular_market_start_end_from_string(input))
            } else {
                None
            }
        },
        None => None,
    }
}


/// The 2022 and 2023 market holidays, as `YYYY-MM-DD 00:00:00` date texts.
pub open spec fn is_listed_holiday(date_text: Seq<char>) -> bool {
    ||| date_text == "2022-01-17 00:00:00"@
    ||| date_text == "2022-02-21 00:00:00"@
    ||| date_text == "2022-04-15 00:00:00"@
    ||| date_text == "2022-05-30 00:00:00"@
    ||| date_text == "2022-06-20 00:00:00"@
    ||| date_text == "2022-07-04 00:00:00"@
    ||| date_text == "2022-09-05 00:00:00"@
    ||| date_text == "2022-11-24 00:00:00"@
    ||| date_text == "2022-11-25 00:00:00"@
    ||| date_text == "2022-12-26 00:00:00"@
    ||| date_text == "2023-01-02 00:00:00"@
    ||| date_text == "2023-01-16 00:00:00"@
    ||| date_text == "2023-02-20 00:00:00"@
    ||| date_text == "2023-04-07 00:00:00"@
    ||| date_text == "2023-05-29 00:00:00"@
    ||| date_text == "2023-06-19 00:00:00"@
    ||| date_text == "2023-07-04 00:00:00"@
    ||| date_text == "2023-09-04 00:00:00"@
    ||| date_text == "2023-11-23 00:00:00"@
    ||| date_text == "2023-11-24 00:00:00"@
    ||| date_text == "2023-12-25 00:00:00"@
}

/// Whether a `YYYY-MM-DD 00:00:00` date text is a listed 2022 or 2023 market holiday.
pub fn is_market_holiday(date_text: &str) -> (holiday: bool)
    ensures
        holiday == is_listed_holiday(date_text@),
{
    str_equals(date_text, "2022-01-17 00:00:00")
        || str_equals(date_text, "2022-02-21 00:00:00")
        || str_equals(date_text, "2022-04-15 00:00:00")
        || str_equals(date_text, "2022-05-30 00:00:00")
        || str_equals(date_text, "2022-06-20 00:00:00")
        || str_equals(date_text, "2022-07-04 00:00:00")
        || str_equals(date_text, "2022-09-05 00:00:00")
        || str_equals(date_text, "2022-11-24 00:00:00")
        || str_equals(date_text, "2022-11-25 00:00:00")
        || str_equals(date_text, "2022-12-26 00:00:00")
        || str_equals(date_text, "2023-01-02 00:00:00")
        || str_equals(date_text, "2023-01-16 00:00:00")
        || str_equals(date_text, "2023-02-20 00:00:00")
        || str_equals(date_text, "2023-04-07 00:00:00")
        || str_equals(date_text, "2023-05-29 00:00:00")
        || str_equals(date_text, "2023-06-19 00:00:00")
        || str_equals(date_text, "2023-07-04 00:00:00")
        || str_equals(date_text, "2023-09-04 00:00:00")
        || str_equals(date_text, "2023-11-23 00:00:00")
        || str_equals(date_text, "2023-11-24 00:00:00")
        || str_equals(date_text, "2023-12-25 00:00:00")
}

/// The session of a whole-second timestamp, counting weekends and the listed
/// holidays as closed.
pub open spec fn spec_session_type_with_holidays(timestamp: i64) -> MarketSessionType {
    let fields = eastern_fields(timestamp);
    if is_weekend(fields) {
        MarketSessionType::Closed
    } else if is_listed_holiday(eastern_date_text(timestamp)) {
        MarketSessionType::Closed
    } else {
        session_of_day(Instant { timestamp, nanosecond: 0 }, fields)
    }
}

/// The session bounds are needed (and exist) unless the day is a weekend or a listed holiday.
pub open spec fn holiday_session_bounds_ok(timestamp: i64) -> bool {
    is_weekend(eastern_fields(timestamp)) || is_listed_holiday(eastern_date_text(timestamp)) || session_bounds_exist(
        eastern_fields(timestamp),
    )
}

/// Classifies a Unix timestamp into a market session, treating weekends and the
/// listed 2022 and 2023 holidays as closed.
pub fn determine_session_type_with_holidays(timestamp: i64) -> (session: MarketSessionType)
    requires
        timestamp_in_chrono_range(timestamp),
        holiday_session_bounds_ok(timestamp),
    ensures
        session == spec_session_type_with_holidays(timestamp),
{
    let fields = eastern_fields_of(timestamp);
    // short circuit on weekends
    let is_weekend = fields.weekday == 5 || fields.weekday == 6;
    if is_weekend {
        return MarketSessionType::Closed;
    }
    // short circuit on holidays
    let formatted_eastern_now = eastern_date_format(timestamp);
    if is_market_holiday(formatted_eastern_now.as_str()) {
        return MarketSessionType::Closed;
    }
    // check pre/regular/post
    let eastern_now = Instant { timestamp, nanosecond: 0 };
    let pre_market_start = eastern_timestamp_of(fields.year, fields.month, fields.day, 4, 0, 0).unwrap();
    let pre_market_end = eastern_timestamp_of(fields.year, fields.month, fields.day, 9, 29, 59).unwrap();
    let is_during_pre_market = is_during(eastern_now, pre_market_start, pre_market_end);
    let regular_market_start = eastern_timestamp_of(fields.year, fields.month, fields.day, 9, 30, 0).unwrap();
    let regular_market_end = eastern_timestamp_of(fields.year, fields.month, fields.day, 15, 59, 59).unwrap();
    let is_during_regular_market = is_during(eastern_now, regular_market_start, regular_market_end);
    let after_market_start = eastern_timestamp_of(fields.year, fields.month, fields.day, 16, 0, 0).unwrap();
    let after_market_end = eastern_timestamp_of(fields.year, fields.month, fields.day, 19, 59, 59).unwrap();
    let is_during_after_market = is_during(eastern_now, after_market_start, after_market_end);
    if is_during_pre_market {
        MarketSessionType::Pre
    } else if is_during_regular_market {
        MarketSessionType::Regular
    } else if is_during_after_market {
        MarketSessionType::Post
    } else {
        MarketSessionType::Closed
    }
}

/// As `determine_session_type_with_holidays`, or `None` when a session
/// boundary of a trading day does not exist as a single US/Eastern time.
pub fn checked_determine_session_type_with_holidays(timestamp: i64) -> (session: Option<MarketSessionType>)
    requires
        timestamp_in_chrono_range(timestamp),
    ensures
        session == if holiday_session_bounds_ok(timestamp) {
            Some(spec_session_type_with_holidays(timestamp))
        } else {
            None::<MarketSessionType>
        },
{
    let fields = eastern_fields_of(timestamp);
    let is_weekend = fields.weekday == 5 || fields.weekday == 6;
    let formatted_eastern_now = eastern_date_format(timestamp);
    if is_weekend || is_market_holiday(formatted_eastern_now.as_str()) || session_bounds_available(fields) {
        Some(determine_session_type_with_holidays(timestamp))
    } else {
        None
    }
}

// ---------------------------------------------------------------------------
// Laws

/// On a Saturday or a Sunday in US/Eastern the market is closed at every
/// instant: no pre-market, regular or after-hours session is ever reported
/// for a weekend day, with or without the holiday list.
pub proof fn law_weekends_are_closed(instant: Instant)
    requires
        eastern_fields(instant.timestamp).weekday == 5 || eastern_fields(instant.timestamp).weekday == 6,
    ensures
        spec_session_type(instant) == MarketSessionType::Closed,
        spec_session_type_with_holidays(instant.timestamp) == MarketSessionType::Closed,
{
}

/// A session other than closed is only ever reported for Monday to Friday.
pub proof fn law_sessions_fall_on_weekdays(instant: Instant)
    ensures
        spec_session_type(instant) != MarketSessionType::Closed ==> eastern_fields(instant.timestamp).weekday < 5
            || eastern_fields(instant.timestamp).weekday > 6,
{
}

/// The US stock market holidays of 2022 and 2023 are closed all day: every
/// instant whose US/Eastern date is one of them is a holiday and classified
/// closed by the holiday-aware session.
pub proof fn law_market_holidays_are_closed(timestamp: i64)
    requires
        ({
            let date = eastern_date_text(timestamp);
        ||| date == "2022-01-17 00:00:00"@  // Martin Luther King Jr. Day
        ||| date == "2022-02-21 00:00:00"@  // Washington's Birthday
        ||| date == "2022-04-15 00:00:00"@  // Good Friday
        ||| date == "2022-05-30 00:00:00"@  // Memorial Day
        ||| date == "2022-06-20 00:00:00"@  // Juneteenth
        ||| date == "2022-07-04 00:00:00"@  // Independence Day
        ||| date == "2022-09-05 00:00:00"@  // Labor Day
        ||| date == "2022-11-24 00:00:00"@  // Thanksgiving Day
        ||| date == "2022-11-25 00:00:00"@  // the day after Thanksgiving (closed)
        ||| date == "2022-12-26 00:00:00"@  // Christmas Day (observed)
        ||| date == "2023-01-02 00:00:00"@  // New Year's Day (observed)
        ||| date == "2023-01-16 00:00:00"@  // Martin Luther King Jr. Day
        ||| date == "2023-02-20 00:00:00"@  // Washington's Birthday
        ||| date == "2023-04-07 00:00:00"@  // Good Friday
        ||| date == "2023-05-29 00:00:00"@  // Memorial Day
        ||| date == "2023-06-19 00:00:00"@  // Juneteenth
        ||| date == "2023-07-04 00:00:00"@  // Independence Day
        ||| date == "2023-09-04 00:00:00"@  // Labor Day
        ||| date == "2023-11-23 00:00:00"@  // Thanksgiving Day
        ||| date == "2023-11-24 00:00:00"@  // the day after Thanksgiving (closed)
        ||| date == "2023-12-25 00:00:00"@  // Christmas Day
        }),
    ensures
        is_listed_holiday(eastern_date_text(timestamp)),
        spec_session_type_with_holidays(timestamp) == MarketSessionType::Closed,
{
}

} // verus!
