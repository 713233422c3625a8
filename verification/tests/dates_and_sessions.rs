use stocks_rs::dates::format_timestamp;
use stocks_rs::events::is_end_of_day_minute;
use stocks_rs::scraping::{scrape_step_at, ScrapeStep};
use stocks_rs::trading_dates::build_list_of_dates;
use stocks_rs::market_session::{
    checked_determine_session_type, checked_determine_session_type_with_holidays,
    checked_get_current_candle_start_and_stop, checked_get_extended_market_session_start_and_end,
    checked_get_extended_market_session_start_and_end_from_string, checked_get_regular_market_session_start_and_end,
    checked_get_regular_market_session_start_and_end_from_string, checked_get_regular_market_start_end_from_string,
    determine_session_type, get_regular_market_session_start_and_end_from_string, is_market_holiday,
    parse_eastern_date_time, Instant, MarketSessionType,
};

// 2023-01-23 is a Monday; US/Eastern is UTC-5 in January.
const MONDAY_0940: i64 = 1674484800;
const MONDAY_0930: i64 = 1674484200;
const MONDAY_155959: i64 = 1674507599;

fn at(timestamp: i64) -> Instant {
    Instant { timestamp, nanosecond: 0 }
}

#[test]
fn format_timestamp_writes_eastern_wall_clock_time() {
    assert_eq!(format_timestamp(MONDAY_0940), "2023-01-23 09:40:00 AM");
    assert_eq!(format_timestamp(MONDAY_155959), "2023-01-23 03:59:59 PM");
}

#[test]
fn format_timestamp_follows_daylight_saving_time() {
    // 2022-07-04 14:00 UTC is 10:00 in New York (UTC-4 in summer)
    assert_eq!(format_timestamp(1656943200), "2022-07-04 10:00:00 AM");
}

#[test]
fn the_end_of_day_minute_is_1559_eastern() {
    assert!(is_end_of_day_minute(MONDAY_155959 - 29));
    assert!(is_end_of_day_minute(MONDAY_155959 - 59));
    assert!(!is_end_of_day_minute(MONDAY_155959 - 60));
    assert!(!is_end_of_day_minute(MONDAY_0940));
    // 15:59 UTC is 10:59 in New York
    assert!(!is_end_of_day_minute(1674489540));
}

#[test]
fn parse_eastern_date_time_gives_the_unix_timestamp() {
    assert_eq!(parse_eastern_date_time("2023-01-23 09:40:00"), Some(MONDAY_0940));
    assert_eq!(parse_eastern_date_time("2023-01-23"), None);
    assert_eq!(parse_eastern_date_time("not a date"), None);
    assert_eq!(parse_eastern_date_time("2023-13-01 00:00:00"), None);
    // 02:30 on 2023-03-12 is skipped by the clock change
    assert_eq!(parse_eastern_date_time("2023-03-12 02:30:00"), None);
}

#[test]
fn listed_dates_are_eastern_local_dates() {
    // 23:30 in New York is already the next day in UTC
    assert_eq!(
        build_list_of_dates("2023-01-23 23:30:00", "2023-01-23 23:30:00").unwrap(),
        vec!["2023-01-23 00:00:00".to_string()]
    );
}

#[test]
fn days_are_stepped_by_wall_clock_across_the_clock_change() {
    assert_eq!(
        build_list_of_dates("2023-03-10 12:00:00", "2023-03-14 12:00:00").unwrap(),
        vec![
            "2023-03-10 00:00:00".to_string(),
            "2023-03-13 00:00:00".to_string(),
            "2023-03-14 00:00:00".to_string(),
        ]
    );
}

#[test]
fn sessions_of_a_weekday() {
    assert_eq!(checked_determine_session_type(at(1674464400)), Some(MarketSessionType::Pre));
    assert_eq!(checked_determine_session_type(at(1674478800)), Some(MarketSessionType::Pre));
    assert_eq!(checked_determine_session_type(at(MONDAY_0930)), Some(MarketSessionType::Regular));
    assert_eq!(checked_determine_session_type(at(MONDAY_0940)), Some(MarketSessionType::Regular));
    assert_eq!(checked_determine_session_type(at(1674511200)), Some(MarketSessionType::Post));
    assert_eq!(checked_determine_session_type(at(1674525600)), Some(MarketSessionType::Closed));
    assert_eq!(determine_session_type(at(MONDAY_0940)), MarketSessionType::Regular);
}

#[test]
fn session_ends_are_included() {
    // 9:29:59 is the last second of the pre-market
    assert_eq!(checked_determine_session_type(at(1674484199)), Some(MarketSessionType::Pre));
    // 15:59:59 is the last second of the regular session
    assert_eq!(checked_determine_session_type(at(MONDAY_155959)), Some(MarketSessionType::Regular));
    assert_eq!(checked_determine_session_type(at(MONDAY_155959 + 1)), Some(MarketSessionType::Post));
    // 19:59:59 is the last second of after hours; 3:59:59 comes before the pre-market
    assert_eq!(checked_determine_session_type(at(1674521999)), Some(MarketSessionType::Post));
    assert_eq!(checked_determine_session_type(at(1674464399)), Some(MarketSessionType::Closed));
}

#[test]
fn part_of_a_second_counts_as_its_whole_second() {
    // 9:29:59.5 lies in the second 9:29:59, the last of the pre-market
    let instant = Instant { timestamp: 1674484199, nanosecond: 500_000_000 };
    assert_eq!(checked_determine_session_type(instant), Some(MarketSessionType::Pre));
    // 19:59:59.999999999 still lies in after hours
    let instant = Instant { timestamp: 1674521999, nanosecond: 999_999_999 };
    assert_eq!(checked_determine_session_type(instant), Some(MarketSessionType::Post));
}

#[test]
fn weekends_are_closed() {
    assert_eq!(checked_determine_session_type(at(1674320400)), Some(MarketSessionType::Closed));
}

#[test]
fn session_bounds_of_a_date() {
    assert_eq!(checked_get_regular_market_session_start_and_end(MONDAY_0940), Some((MONDAY_0930, MONDAY_155959)));
    assert_eq!(checked_get_extended_market_session_start_and_end(MONDAY_0940), Some((1674475200, MONDAY_155959)));
    assert_eq!(
        checked_get_regular_market_session_start_and_end_from_string("2023-01-23 00:00:00"),
        Some((MONDAY_0930, MONDAY_155959))
    );
    assert_eq!(
        get_regular_market_session_start_and_end_from_string("2023-01-23 00:00:00"),
        (MONDAY_0930, MONDAY_155959)
    );
    assert_eq!(
        checked_get_extended_market_session_start_and_end_from_string("2023-01-23 00:00:00"),
        Some((1674475200, MONDAY_155959))
    );
    assert_eq!(
        checked_get_regular_market_start_end_from_string("2023-01-23 00:00:00"),
        Some((MONDAY_0930, MONDAY_155959 + 1))
    );
    assert_eq!(checked_get_regular_market_session_start_and_end_from_string("garbage"), None);
}

#[test]
fn current_candle_spans_its_minute() {
    assert_eq!(checked_get_current_candle_start_and_stop("1", MONDAY_0940 + 30), Some((MONDAY_0940, MONDAY_0940 + 59)));
}

#[test]
fn listed_holidays() {
    assert!(is_market_holiday("2022-07-04 00:00:00"));
    assert!(is_market_holiday("2023-12-25 00:00:00"));
    assert!(!is_market_holiday("2022-07-05 00:00:00"));
    assert!(!is_market_holiday("2022-07-04"));
}

#[test]
fn holidays_are_closed_all_day() {
    assert_eq!(checked_determine_session_type_with_holidays(1656943200), Some(MarketSessionType::Closed));
    assert_eq!(checked_determine_session_type_with_holidays(MONDAY_0940), Some(MarketSessionType::Regular));
    assert_eq!(checked_determine_session_type_with_holidays(1674320400), Some(MarketSessionType::Closed));
    assert_eq!(checked_determine_session_type_with_holidays(MONDAY_155959), Some(MarketSessionType::Regular));
    assert_eq!(checked_determine_session_type_with_holidays(1674484199), Some(MarketSessionType::Pre));
}

#[test]
fn scrapers_run_during_the_regular_session_of_weekdays() {
    assert_eq!(scrape_step_at(at(MONDAY_0940)), Some(ScrapeStep::Scrape));
    assert_eq!(scrape_step_at(at(MONDAY_0930 - 1)), Some(ScrapeStep::BeforeOpen));
    assert_eq!(scrape_step_at(at(MONDAY_155959)), Some(ScrapeStep::Scrape));
    assert_eq!(
        scrape_step_at(Instant { timestamp: MONDAY_155959, nanosecond: 500_000_000 }),
        Some(ScrapeStep::AfterClose)
    );
    assert_eq!(scrape_step_at(at(MONDAY_155959 + 1)), Some(ScrapeStep::AfterClose));
    assert_eq!(scrape_step_at(at(1674320400)), Some(ScrapeStep::Weekend));
}
