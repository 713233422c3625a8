use stocks_rs::thinkorswim::{
    check_login_answer, find_message_response, is_heartbeat_message, select_option_chain_quote_message,
    ChainQuoteSelection, LoginCheck, ResponseSearch,
};
use stocks_rs::tradingview::{classify_data_payload, TradingViewMessageType};

fn bytes(text: &str) -> Vec<u8> {
    text.as_bytes().to_vec()
}

#[test]
fn received_payloads_are_classified_from_their_json() {
    assert_eq!(classify_data_payload(&bytes(r#"{"ping":{"id":3}}"#)), Some(TradingViewMessageType::Ping));
    assert_eq!(classify_data_payload(&bytes(r#"{"session_id":"abc","timestamp":1}"#)), Some(TradingViewMessageType::ServerInfo));
    assert_eq!(
        classify_data_payload(&bytes(r#"{"m":"qsd","p":["qs_1",{"n":"AMEX:SPY","v":{"lp":401.5,"volume":10}}]}"#)),
        Some(TradingViewMessageType::QsdLastPrice)
    );
    assert_eq!(
        classify_data_payload(&bytes(r#"{"m":"du","p":["cs_1",{"series_parent_id":{"s":[]}}]}"#)),
        Some(TradingViewMessageType::DuSeries)
    );
    assert_eq!(
        classify_data_payload(&bytes(r#"{"m":"timescale_update","p":["cs_1",{}]}"#)),
        Some(TradingViewMessageType::TimescaleUpdate)
    );
}

#[test]
fn unreadable_or_unknown_payloads_are_not_classified() {
    assert_eq!(classify_data_payload(&bytes("not json")), None);
    assert_eq!(classify_data_payload(&bytes(r#"{"m":"something_else"}"#)), None);
    assert_eq!(classify_data_payload(&bytes(r#"{"m":1}"#)), None);
    assert_eq!(classify_data_payload(&bytes(r#"{"p":[]}"#)), None);
    // a qsd message without any known field
    assert_eq!(classify_data_payload(&bytes(r#"{"m":"qsd","p":["qs_1",{"v":{}}]}"#)), None);
}

#[test]
fn heartbeat_messages_are_objects_with_a_heartbeat_key() {
    assert_eq!(is_heartbeat_message(&bytes(r#"{"heartbeat":"2s"}"#)), Some(true));
    assert_eq!(is_heartbeat_message(&bytes(r#"{"heartbeat":null}"#)), Some(true));
    assert_eq!(is_heartbeat_message(&bytes(r#"{"payload":[]}"#)), Some(false));
    assert_eq!(is_heartbeat_message(&bytes("[1]")), None);
    assert_eq!(is_heartbeat_message(&bytes("nope")), None);
}

#[test]
fn responses_are_found_by_the_id_in_their_header() {
    let messages = vec![
        bytes(r#"{"payload":[{"header":{"id":"a","type":"snapshot"}}]}"#),
        bytes(r#"{"payload":[{"header":{"type":"snapshot"}}]}"#),
        bytes(r#"{"payload":[{"header":{"id":"b"}}]}"#),
    ];
    assert_eq!(find_message_response(&messages, "b"), ResponseSearch::Found(2));
    assert_eq!(find_message_response(&messages, "a"), ResponseSearch::Found(0));
    assert_eq!(find_message_response(&messages, "c"), ResponseSearch::NotFound);
    let with_bad_id = vec![bytes(r#"{"payload":[{"header":{"id":7}}]}"#), bytes(r#"{"payload":[{"header":{"id":"c"}}]}"#)];
    assert_eq!(find_message_response(&with_bad_id, "c"), ResponseSearch::Malformed);
}

#[test]
fn option_chain_quotes_come_from_the_message_replacing_the_document() {
    let snapshot = bytes(r#"{"payload":[{"header":{"type":"snapshot"},"body":{}}]}"#);
    let other_patch = bytes(r#"{"payload":[{"header":{"type":"patch"},"body":{"patches":[{"op":"add","path":"/x"}]}}]}"#);
    let replace = bytes(r#"{"payload":[{"header":{"type":"patch"},"body":{"patches":[{"op":"replace","path":"","value":{"items":[]}}]}}]}"#);
    assert_eq!(
        select_option_chain_quote_message(&vec![snapshot.clone(), other_patch.clone(), replace.clone()]),
        ChainQuoteSelection::Patch(2)
    );
    assert_eq!(select_option_chain_quote_message(&vec![snapshot.clone(), other_patch.clone()]), ChainQuoteSelection::NoPatch);
    assert_eq!(select_option_chain_quote_message(&vec![replace.clone()]), ChainQuoteSelection::NoSnapshot);
}

#[test]
fn login_answers_are_judged_by_their_status() {
    assert_eq!(check_login_answer(&bytes(r#"{"payload":[{"body":{"authenticationStatus":"OK"}}]}"#)), LoginCheck::Accepted);
    assert_eq!(check_login_answer(&bytes(r#"{"payload":[{"body":{"authenticationStatus":"DENIED"}}]}"#)), LoginCheck::Refused);
    assert_eq!(check_login_answer(&bytes(r#"{"payload":[{"body":{"authenticationStatus":5}}]}"#)), LoginCheck::Refused);
    assert_eq!(check_login_answer(&bytes(r#"{"payload":[{"body":{}}]}"#)), LoginCheck::Malformed);
}
