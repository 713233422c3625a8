use stocks_rs::direction_rules::{signal_direction, snapshot_direction};
use stocks_rs::events::{plan_events, EventDescription, EventType, MinuteSignal, PlannedEvent};
use stocks_rs::market_session::MarketSessionType;
use stocks_rs::retry::{after_attempt, contains_text, is_known_error, RetryStep};
use stocks_rs::structs::Direction;
use stocks_rs::thinkorswim::{
    check_login_status, find_response_by_message_id, select_option_chain_quotes, ChainQuoteSelection, FieldRead,
    LoginCheck, QuoteResponseShape, ResponseSearch,
};

fn minute(direction: Direction, is_end_of_day: bool) -> MinuteSignal {
    MinuteSignal { warmed_up: true, is_end_of_day, direction }
}

fn event(minute: usize, event_type: EventType, description: EventDescription, direction: Direction) -> PlannedEvent {
    PlannedEvent { minute, event_type, description, direction }
}

#[test]
fn events_open_on_a_change_and_close_at_the_end_of_day() {
    let signals = vec![
        MinuteSignal { warmed_up: false, is_end_of_day: false, direction: Direction::Long },
        minute(Direction::Long, false),
        minute(Direction::Long, false),
        minute(Direction::Short, false),
        minute(Direction::Short, true),
    ];
    let events = plan_events(&signals).unwrap();
    assert_eq!(
        events,
        vec![
            event(1, EventType::Open, EventDescription::FireLong, Direction::Long),
            event(3, EventType::Close, EventDescription::SwitchDirection, Direction::Long),
            event(3, EventType::Open, EventDescription::FireShort, Direction::Short),
            event(4, EventType::Close, EventDescription::SwitchDirection, Direction::Short),
        ]
    );
    for pair in events.chunks(2) {
        assert_eq!(pair[0].event_type, EventType::Open);
        assert_eq!(pair[1].event_type, EventType::Close);
        assert_eq!(pair[0].direction, pair[1].direction);
    }
}

#[test]
fn a_change_at_the_end_of_day_only_closes() {
    let signals = vec![minute(Direction::Long, false), minute(Direction::Short, true)];
    assert_eq!(
        plan_events(&signals).unwrap(),
        vec![
            event(0, EventType::Open, EventDescription::FireLong, Direction::Long),
            event(1, EventType::Close, EventDescription::SwitchDirection, Direction::Long),
        ]
    );
}

#[test]
fn a_session_warmed_up_before_the_end_of_day_is_planned() {
    let signals = vec![
        MinuteSignal { warmed_up: false, is_end_of_day: false, direction: Direction::Flat },
        minute(Direction::Short, false),
        minute(Direction::Short, false),
        minute(Direction::Short, true),
    ];
    let events = plan_events(&signals).unwrap();
    assert_eq!(
        events,
        vec![
            event(1, EventType::Open, EventDescription::FireShort, Direction::Short),
            event(3, EventType::Close, EventDescription::SwitchDirection, Direction::Short),
        ]
    );
    assert!(events[0].minute < events[1].minute);
}

#[test]
fn planning_fails_without_a_closing_end_of_day() {
    // no event yet at the end of day
    assert_eq!(plan_events(&vec![minute(Direction::Long, true)]), None);
    // a trade left open when the session ends
    assert_eq!(plan_events(&vec![minute(Direction::Long, false), minute(Direction::Long, false)]), None);
    // nothing happened at all
    assert_eq!(plan_events(&vec![]), Some(vec![]));
}

#[test]
fn signal_directions() {
    let regular = MarketSessionType::Regular;
    assert_eq!(signal_direction(regular, true, 3600, 60, true), Direction::Long);
    assert_eq!(signal_direction(regular, true, 3600, 60, false), Direction::Short);
    assert_eq!(signal_direction(regular, false, 3600, 60, true), Direction::Flat);
    assert_eq!(signal_direction(MarketSessionType::Pre, true, 3600, 60, true), Direction::Flat);
    assert_eq!(signal_direction(MarketSessionType::Post, true, 3600, 60, true), Direction::Flat);
    // the last candle of the regular session is flat
    assert_eq!(signal_direction(regular, true, 59, 60, true), Direction::Flat);
    assert_eq!(signal_direction(regular, true, 60, 60, true), Direction::Long);
}

#[test]
fn snapshot_directions() {
    let regular = MarketSessionType::Regular;
    assert_eq!(snapshot_direction(true, regular, 300, true), Direction::Long);
    assert_eq!(snapshot_direction(true, regular, 300, false), Direction::Short);
    assert_eq!(snapshot_direction(true, regular, 299, true), Direction::Flat);
    assert_eq!(snapshot_direction(false, regular, 3600, true), Direction::Flat);
    assert_eq!(snapshot_direction(true, MarketSessionType::Pre, 3600, true), Direction::Flat);
}

#[test]
fn text_containment() {
    assert!(contains_text("invalid response status: 502 Bad Gateway", "status: 502"));
    assert!(contains_text("abc", ""));
    assert!(contains_text("abc", "abc"));
    assert!(!contains_text("abc", "abcd"));
    assert!(!contains_text("timed ou", "timed out"));
}

#[test]
fn known_errors_are_retried_and_others_abort() {
    let known = vec![
        String::from("timed out"),
        String::from("invalid response status: 502"),
        String::from("invalid response status: 503"),
    ];
    assert!(is_known_error("request timed out after 5000ms", &known));
    assert!(!is_known_error("invalid response status: 404", &known));
    assert_eq!(after_attempt(true, "", &known), RetryStep::Finish);
    assert_eq!(after_attempt(false, "invalid response status: 503", &known), RetryStep::WaitAndRetry);
    assert_eq!(after_attempt(false, "invalid response status: 401", &known), RetryStep::Abort);
    assert_eq!(after_attempt(false, "timed out", &vec![]), RetryStep::Abort);
}

fn text(s: &str) -> FieldRead {
    FieldRead::Text(s.to_string())
}

#[test]
fn responses_are_found_by_message_id() {
    let ids = vec![FieldRead::Absent, text("other"), text("wanted"), text("wanted")];
    assert_eq!(find_response_by_message_id(&ids, "wanted"), ResponseSearch::Found(2));
    assert_eq!(find_response_by_message_id(&ids, "missing"), ResponseSearch::NotFound);
    let broken = vec![text("other"), FieldRead::Failed, text("wanted")];
    assert_eq!(find_response_by_message_id(&broken, "wanted"), ResponseSearch::Malformed);
}

fn response(header_type: &str, patch: Option<(&str, &str)>) -> QuoteResponseShape {
    match patch {
        Some((op, path)) => QuoteResponseShape {
            header_type: text(header_type),
            has_patch_op: Some(true),
            patch_op: text(op),
            patch_path: text(path),
        },
        None => QuoteResponseShape {
            header_type: text(header_type),
            has_patch_op: Some(false),
            patch_op: FieldRead::Absent,
            patch_path: FieldRead::Absent,
        },
    }
}

#[test]
fn option_chain_quotes_come_from_the_replacing_patch() {
    let responses = vec![
        response("snapshot", None),
        response("patch", Some(("replace", "/items/0"))),
        response("patch", Some(("replace", ""))),
    ];
    assert_eq!(select_option_chain_quotes(&responses), ChainQuoteSelection::Patch(2));
    assert_eq!(select_option_chain_quotes(&responses[1..].to_vec()), ChainQuoteSelection::NoSnapshot);
    assert_eq!(select_option_chain_quotes(&responses[..2].to_vec()), ChainQuoteSelection::NoPatch);
    let mut unreadable = response("patch", None);
    unreadable.header_type = FieldRead::Absent;
    assert_eq!(select_option_chain_quotes(&vec![unreadable]), ChainQuoteSelection::Malformed);
}

#[test]
fn login_answers() {
    assert_eq!(check_login_status(&text("OK")), LoginCheck::Accepted);
    assert_eq!(check_login_status(&text("FAILED")), LoginCheck::Refused);
    assert_eq!(check_login_status(&FieldRead::Failed), LoginCheck::Refused);
    assert_eq!(check_login_status(&FieldRead::Absent), LoginCheck::Malformed);
}
