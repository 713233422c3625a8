use vstd::prelude::*;

use crate::dates::{eastern_fields, eastern_fields_of};
use crate::market_session::{checked_get_regular_market_session_start_and_end, day_times, day_times_exist, valid_instant, Instant};

verus! {

/// What a live scraper does at a moment.
#[derive(PartialEq, Eq, Structural, Debug, Clone, Copy)]
pub enum ScrapeStep {
    /// The regular session has not opened yet: wait.
    BeforeOpen,
    /// The regular session is over: wait.
    AfterClose,
    /// It is Saturday or Sunday: wait.
    Weekend,
    /// Scrape now.
    Scrape,
}

/// Scraping happens from the session start to the session end (both whole
/// seconds, the end included up to its first instant) on weekdays.
pub open spec fn spec_scrape_step(now: Instant, session_start: i64, session_end: i64, weekday: u32) -> ScrapeStep {
    if now.timestamp < session_start {
        ScrapeStep::BeforeOpen
    } else if now.timestamp > session_end || (now.timestamp == session_end && now.nanosecond > 0) {
        ScrapeStep::AfterClose
    } else if weekday == 5 || weekday == 6 {
        ScrapeStep::Weekend
    } else {
        ScrapeStep::Scrape
    }
}

/// Decides whether to scrape at `now`, against the regular session
/// (9:30:00 to 15:59:59) of its US/Eastern date; `None` when a bound of
/// that session does not exist as a single US/Eastern time.
pub fn scrape_step_at(now: Instant) -> (step: Option<ScrapeStep>)
    requires
        valid_instant(now),
    ensures
        step == if day_times_exist(eastern_fields(now.timestamp), (9, 30, 0), (15, 59, 59)) {
            Some(
                spec_scrape_step(
                    now,
                    day_times(eastern_fields(now.timestamp), (9, 30, 0), (15, 59, 59)).0,
                    day_times(eastern_fields(now.timestamp), (9, 30, 0), (15, 59, 59)).1,
                    eastern_fields(now.timestamp).weekday,
                ),
            )
        } else {
            None::<ScrapeStep>
        },
{
    let (session_start, session_end) = match checked_get_regular_market_session_start_and_end(now.timestamp) {
        Some(range) => range,
        None => {
            return None;
        },
    };
    let weekday = eastern_fields_of(now.timestamp).weekday;
    let step = if now.timestamp < session_start {
        ScrapeStep::BeforeOpen
    } else if now.timestamp > session_end || (now.timestamp == session_end && now.nanosecond > 0) {
        ScrapeStep::AfterClose
    } else if weekday == 5 || weekday == 6 {
        ScrapeStep::Weekend
    } else {
        ScrapeStep::Scrape
    };
    Some(step)
}

/// On a Saturday or a Sunday the scraper never scrapes, whatever the time
/// of day and the session bounds.
pub proof fn law_no_scraping_on_weekends(now: Instant, session_start: i64, session_end: i64, weekday: u32)
    requires
        weekday == 5 || weekday == 6,
    ensures
        spec_scrape_step(now, session_start, session_end, weekday) != ScrapeStep::Scrape,
{
}

/// The scraper scrapes only on a weekday and only from the session start to
/// the first instant of the session end's second.
pub proof fn law_scraping_stays_in_the_session(now: Instant, session_start: i64, session_end: i64, weekday: u32)
    requires
        spec_scrape_step(now, session_start, session_end, weekday) == ScrapeStep::Scrape,
    ensures
        weekday != 5 && weekday != 6,
        session_start <= now.timestamp,
        now.timestamp < session_end || (now.timestamp == session_end && now.nanosecond == 0),
{
}

} // verus!
