#[allow(unused_imports)]
use chrono::{Datelike, Timelike};
use vstd::prelude::*;

verus! {

/// Earliest Unix timestamp (seconds) that chrono can turn into a date time
/// (the first second of year -262143).
pub const MIN_CHRONO_TIMESTAMP: i64 = -8334601315200;

/// Latest Unix timestamp (seconds) that chrono can turn into a date time
/// (the last second of year 262142).
pub const MAX_CHRONO_TIMESTAMP: i64 = 8210266876799;

/// Whether chrono can represent the given Unix timestamp.
pub open spec fn timestamp_in_chrono_range(timestamp: i64) -> bool {
    MIN_CHRONO_TIMESTAMP <= timestamp <= MAX_CHRONO_TIMESTAMP
}

/// The text that chrono writes for the Unix timestamp `timestamp`, seen in the
/// US/Eastern time zone and formatted with `%Y-%m-%d %I:%M:%S %p`.
pub uninterp spec fn eastern_clock_text(timestamp: i64) -> Seq<char>;

/// Formats a Unix timestamp as US/Eastern wall-clock time.
///
/// Trusted: calls chrono's `NaiveDateTime::from_timestamp_opt`, chrono-tz's
/// `Eastern.from_utc_datetime` and chrono's `format("%Y-%m-%d %I:%M:%S %p")`.
/// The contract claims that the call does not panic for timestamps chrono can
/// represent (it then returns `Some`) and names the resulting text.
#[verifier::external_body]
fn eastern_clock_format(timestamp: i64) -> (text: String)
    requires
        timestamp_in_chrono_range(timestamp),
    ensures
        text@ == eastern_clock_text(timestamp),
{
    #[allow(deprecated)]
    let naive = chrono::NaiveDateTime::from_timestamp_opt(timestamp, 0).unwrap();
    let eastern = chrono::TimeZone::from_utc_datetime(&chrono_tz::US::Eastern, &naive);
    eastern.format("%Y-%m-%d %I:%M:%S %p").to_string()
}

/// Formats a Unix timestamp as US/Eastern time, such as `2023-01-23 09:40:00 AM`.
pub fn format_timestamp(timestamp: i64) -> (text: String)
    requires
        timestamp_in_chrono_range(timestamp),
    ensures
        text@ == eastern_clock_text(timestamp),
{
    eastern_clock_format(timestamp)
}

/// The calendar and clock fields of a local date time.
#[derive(PartialEq, Eq, Structural, Debug, Clone, Copy)]
pub struct LocalFields {
    pub year: i32,
    pub month: u32,
    pub day: u32,
    pub hour: u32,
    pub minute: u32,
    pub second: u32,
    /// Days since Monday: 0 is Monday, 5 Saturday, 6 Sunday.
    pub weekday: u32,
}

/// The US/Eastern calendar and clock fields of the Unix timestamp `timestamp`,
/// as chrono and chrono-tz compute them.
pub uninterp spec fn eastern_fields(timestamp: i64) -> LocalFields;

/// Reads the US/Eastern calendar and clock fields of a Unix timestamp.
///
/// Trusted: calls chrono's `NaiveDateTime::from_timestamp_opt` and chrono-tz's
/// `Eastern.from_utc_datetime`, then chrono's getters `year`, `month`, `day`,
/// `hour`, `minute`, `second` and `weekday().num_days_from_monday()`. Claims
/// that this does not panic for timestamps chrono can represent, names the
/// fields, and states the weekday range that chrono documents (0 to 6).
#[verifier::external_body]
pub(crate) fn eastern_fields_of(timestamp: i64) -> (fields: LocalFields)
    requires
        timestamp_in_chrono_range(timestamp),
    ensures
        fields == eastern_fields(timestamp),
        fields.weekday < 7,
{
    #[allow(deprecated)]
    let naive = chrono::NaiveDateTime::from_timestamp_opt(timestamp, 0).unwrap();
    let eastern = chrono::TimeZone::from_utc_datetime(&chrono_tz::US::Eastern, &naive);
    LocalFields {
        year: eastern.year(),
        month: eastern.month(),
        day: eastern.day(),
        hour: eastern.hour(),
        minute: eastern.minute(),
        second: eastern.second(),
        weekday: eastern.weekday().num_days_from_monday(),
    }
}

/// The Unix timestamp of a US/Eastern wall-clock time, when that local time
/// exists and is not ambiguous (chrono's `LocalResult::Single`); `None` for
/// invalid dates, times skipped by a clock change, and repeated times.
pub uninterp spec fn eastern_local_timestamp(year: i32, month: u32, day: u32, hour: u32, minute: u32, second: u32) -> Option<i64>;

/// Converts a US/Eastern wall-clock time into a Unix timestamp.
///
/// Trusted: calls chrono's `TimeZone::with_ymd_and_hms` on chrono-tz's
/// `US::Eastern`, keeps the result only when it is `Single`, and reads its
/// `timestamp()`. The contract names the result and claims, as chrono's
/// source shows, that a date time it builds lies within chrono's range.
#[verifier::external_body]
pub(crate) fn eastern_timestamp_of(year: i32, month: u32, day: u32, hour: u32, minute: u32, second: u32) -> (timestamp: Option<i64>)
    ensures
        timestamp == eastern_local_timestamp(year, month, day, hour, minute, second),
        timestamp matches Some(t) ==> timestamp_in_chrono_range(t),
{
    chrono::TimeZone::with_ymd_and_hms(&chrono_tz::US::Eastern, year, month, day, hour, minute, second)
        .single()
        .map(|datetime| datetime.timestamp())
}

/// The fields that chrono's `NaiveDateTime::parse_from_str(input, "%Y-%m-%d %H:%M:%S")`
/// parses out of `input`, or `None` when it fails.
pub uninterp spec fn parsed_date_time(input: Seq<char>) -> Option<LocalFields>;

/// Parses a `%Y-%m-%d %H:%M:%S` date time, such as `2023-01-23 00:00:00`.
///
/// Trusted: calls chrono's `NaiveDateTime::parse_from_str` with that pattern
/// and reads the fields of the result with chrono's getters. The contract names
/// the result as a function of the input text, with chrono's weekday range.
#[verifier::external_body]
pub(crate) fn parse_date_time(input: &str) -> (fields: Option<LocalFields>)
    ensures
        fields == parsed_date_time(input@),
        fields matches Some(f) ==> f.weekday < 7,
{
    match chrono::NaiveDateTime::parse_from_str(input, "%Y-%m-%d %H:%M:%S") {
        Ok(naive) => Some(
            LocalFields {
                year: naive.year(),
                month: naive.month(),
                day: naive.day(),
                hour: naive.hour(),
                minute: naive.minute(),
                second: naive.second(),
                weekday: naive.weekday().num_days_from_monday(),
            },
        ),
        Err(_) => None,
    }
}

/// The text that chrono writes for the Unix timestamp `timestamp`, seen in the
/// US/Eastern time zone and formatted with `%Y-%m-%d 00:00:00` (the local date).
pub uninterp spec fn eastern_date_text(timestamp: i64) -> Seq<char>;

/// Formats the US/Eastern date of a Unix timestamp as `YYYY-MM-DD 00:00:00`.
///
/// Trusted: calls chrono's `NaiveDateTime::from_timestamp_opt`, chrono-tz's
/// `Eastern.from_utc_datetime` and chrono's `format("%Y-%m-%d 00:00:00")`.
/// Claims that this does not panic for timestamps chrono can represent and
/// names the resulting text.
#[verifier::external_body]
pub(crate) fn eastern_date_format(timestamp: i64) -> (text: String)
    requires
        timestamp_in_chrono_range(timestamp),
    ensures
        text@ == eastern_date_text(timestamp),
{
    #[allow(deprecated)]
    let naive = chrono::NaiveDateTime::from_timestamp_opt(timestamp, 0).unwrap();
    let eastern = chrono::TimeZone::from_utc_datetime(&chrono_tz::US::Eastern, &naive);
    eastern.format("%Y-%m-%d 00:00:00").to_string()
}

/// The Unix timestamp of the same US/Eastern wall-clock time one calendar day
/// after `timestamp`, or `None` where chrono gives none (the local time does
/// not exist or is ambiguous on that day, or lies out of range).
pub uninterp spec fn eastern_day_after(timestamp: i64) -> Option<i64>;

/// Moves a Unix timestamp one US/Eastern calendar day ahead.
///
/// Trusted: calls chrono's `NaiveDateTime::from_timestamp_opt`, chrono-tz's
/// `Eastern.from_utc_datetime`, then chrono's `DateTime::checked_add_days`
/// with one day, and reads `timestamp()`. Claims that this does not panic
/// for timestamps chrono can represent, names the result, and claims that a
/// result lies within chrono's range, as the source's final range filter shows.
#[verifier::external_body]
pub(crate) fn eastern_day_after_of(timestamp: i64) -> (next: Option<i64>)
    requires
        timestamp_in_chrono_range(timestamp),
    ensures
        next == eastern_day_after(timestamp),
        next matches Some(t) ==> timestamp_in_chrono_range(t),
{
    #[allow(deprecated)]
    let naive = chrono::NaiveDateTime::from_timestamp_opt(timestamp, 0).unwrap();
    let eastern = chrono::TimeZone::from_utc_datetime(&chrono_tz::US::Eastern, &naive);
    eastern.checked_add_days(chrono::Days::new(1)).map(|datetime| datetime.timestamp())
}

} // verus!
