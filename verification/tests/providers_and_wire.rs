use stocks_rs::candle_scraper::Provider as ScraperProvider;
use stocks_rs::providers::{candle_source, order_candles_in_window, AlphaVantage, Provider};
use stocks_rs::strategies::SupertrendStrategy;
use stocks_rs::tradingview::{classify_message, find_timescale_update, MessageShape, TradingViewMessageType};
use stocks_rs::tradingview_wire::{classify_payload, decimal_bytes, frame_payload, heartbeat_payload, split_frames, PayloadKind};

#[test]
fn provider_names() {
    assert_eq!(Provider::from_name("finnhub"), Ok(Provider::Finnhub));
    assert_eq!(Provider::from_name("yahoo_finance"), Ok(Provider::YahooFinance));
    assert_eq!(Provider::from_name("polygon"), Ok(Provider::Polygon));
    assert_eq!(Provider::from_name("robinhood"), Ok(Provider::Robinhood));
    assert_eq!(Provider::from_name("thinkorswim"), Ok(Provider::ThinkOrSwim));
    assert_eq!(Provider::from_name("tradingview"), Ok(Provider::TradingView));
    assert_eq!(Provider::from_name("alpha_vantage"), Ok(Provider::AlphaVantage));
    assert_eq!(Provider::from_name("Finnhub"), Err(()));
    assert_eq!(Provider::from_name(""), Err(()));
    assert_eq!("polygon".parse::<Provider>(), Ok(Provider::Polygon));
}

#[test]
fn candle_sources_leave_out_the_options_brokers() {
    assert_eq!(candle_source("yahoo_finance"), Some(Provider::YahooFinance));
    assert_eq!(candle_source("alpha_vantage"), Some(Provider::AlphaVantage));
    assert_eq!(candle_source("tradingview"), Some(Provider::TradingView));
    assert_eq!(candle_source("robinhood"), None);
    assert_eq!(candle_source("thinkorswim"), None);
    assert_eq!(candle_source("bloomberg"), None);
}

#[test]
fn scraper_provider_names() {
    assert_eq!(ScraperProvider::from_name("finnhub"), Ok(ScraperProvider::Finnhub));
    assert_eq!(ScraperProvider::from_name("yahoo_finance"), Ok(ScraperProvider::YahooFinance));
    assert_eq!(ScraperProvider::from_name("polygon"), Ok(ScraperProvider::Polygon));
    assert_eq!(ScraperProvider::from_name("robinhood"), Err(()));
    assert_eq!("yahoo_finance".parse::<ScraperProvider>(), Ok(ScraperProvider::YahooFinance));
}

#[test]
fn stateless_handles() {
    let _ = AlphaVantage::new();
    let _ = SupertrendStrategy::new();
}

#[test]
fn candles_in_window_come_sorted_and_stable() {
    let timestamps = vec![300, 100, 200, 100, 500, 50];
    assert_eq!(order_candles_in_window(&timestamps, 100, 300), vec![1, 3, 2, 0]);
    assert_eq!(order_candles_in_window(&timestamps, 0, 1000), vec![5, 1, 3, 2, 0, 4]);
    assert_eq!(order_candles_in_window(&timestamps, 600, 700), Vec::<usize>::new());
    assert_eq!(order_candles_in_window(&vec![], 0, 10), Vec::<usize>::new());
}

fn shape(method: &str) -> MessageShape {
    MessageShape {
        has_ping_id: false,
        has_session_id: false,
        method: method.to_string(),
        has_founded: false,
        has_session_holidays: false,
        has_bid_size: false,
        has_last_price: false,
        has_volume: false,
        has_rt_update_time: false,
        has_fundamental_data: false,
        has_trade_loaded: false,
        has_after_market_last_price: false,
        has_rtc_time: false,
        has_series_parent_id: false,
        has_study_parent_id: false,
    }
}

#[test]
fn messages_are_classified_by_shape() {
    let mut ping = shape("");
    ping.has_ping_id = true;
    assert_eq!(classify_message(&ping), Some(TradingViewMessageType::Ping));
    let mut info = shape("");
    info.has_session_id = true;
    assert_eq!(classify_message(&info), Some(TradingViewMessageType::ServerInfo));
    let mut qsd = shape("qsd");
    qsd.has_last_price = true;
    qsd.has_volume = true;
    assert_eq!(classify_message(&qsd), Some(TradingViewMessageType::QsdLastPrice));
    let mut du = shape("du");
    du.has_study_parent_id = true;
    assert_eq!(classify_message(&du), Some(TradingViewMessageType::DuStudy));
    assert_eq!(classify_message(&shape("timescale_update")), Some(TradingViewMessageType::TimescaleUpdate));
    assert_eq!(classify_message(&shape("series_completed")), Some(TradingViewMessageType::SeriesCompleted));
    assert_eq!(classify_message(&shape("study_loading")), Some(TradingViewMessageType::StudyLoading));
}

#[test]
fn messages_of_unknown_shape_are_not_classified() {
    assert_eq!(classify_message(&shape("qsd")), None);
    assert_eq!(classify_message(&shape("du")), None);
    assert_eq!(classify_message(&shape("something_else")), None);
}

#[test]
fn the_first_timescale_update_carries_the_candles() {
    let types = vec![
        TradingViewMessageType::ServerInfo,
        TradingViewMessageType::TimescaleUpdate,
        TradingViewMessageType::TimescaleUpdate,
    ];
    assert_eq!(find_timescale_update(&types), Some(1));
    assert_eq!(find_timescale_update(&vec![TradingViewMessageType::Ping]), None);
}

#[test]
fn decimal_text() {
    assert_eq!(decimal_bytes(0), b"0".to_vec());
    assert_eq!(decimal_bytes(7), b"7".to_vec());
    assert_eq!(decimal_bytes(1234), b"1234".to_vec());
}

#[test]
fn framing_prefixes_the_byte_length() {
    assert_eq!(frame_payload(&b"{\"m\":\"x\"}".to_vec()), b"~m~9~m~{\"m\":\"x\"}".to_vec());
    assert_eq!(frame_payload(&b"".to_vec()), b"~m~0~m~".to_vec());
    assert_eq!(heartbeat_payload(42), b"~h~42".to_vec());
}

#[test]
fn packets_split_into_their_payloads() {
    let packet = b"~m~4~m~~h~1~m~10~m~{\"a\":true}".to_vec();
    assert_eq!(split_frames(&packet), vec![b"~h~1".to_vec(), b"{\"a\":true}".to_vec()]);
    assert_eq!(split_frames(&b"".to_vec()), Vec::<Vec<u8>>::new());
    assert_eq!(split_frames(&b"no delimiter".to_vec()), vec![b"no delimiter".to_vec()]);
    // a marker without digits is not a delimiter
    assert_eq!(split_frames(&b"~m~~m~x".to_vec()), vec![b"~m~~m~x".to_vec()]);
    assert_eq!(split_frames(&b"~m~1~m~a~m~1~m~".to_vec()), vec![b"a".to_vec()]);
}

#[test]
fn framing_then_splitting_gives_the_payload_back() {
    let payload = b"{\"m\":\"quote_add_symbols\",\"p\":[\"qs_1\",\"AMEX:SPY\"]}".to_vec();
    assert_eq!(split_frames(&frame_payload(&payload)), vec![payload]);
}

#[test]
fn heartbeats_are_told_from_data() {
    assert_eq!(classify_payload(&b"~h~17".to_vec()), PayloadKind::Heartbeat(17));
    assert_eq!(classify_payload(&b"xx~h~~h~305tail".to_vec()), PayloadKind::Heartbeat(305));
    assert_eq!(classify_payload(&b"{\"m\":\"du\"}".to_vec()), PayloadKind::Data);
    assert_eq!(classify_payload(&b"~h~".to_vec()), PayloadKind::Data);
    assert_eq!(
        classify_payload(&b"~h~99999999999999999999999999".to_vec()),
        PayloadKind::HeartbeatUnreadable
    );
    assert_eq!(classify_payload(&heartbeat_payload(usize::MAX)), PayloadKind::Heartbeat(usize::MAX));
}

#[test]
fn delimiters_take_any_unicode_decimal_digits() {
    // Arabic-Indic digit two (U+0662)
    let packet = "~m~\u{662}~m~{}".as_bytes().to_vec();
    assert_eq!(split_frames(&packet), vec![b"{}".to_vec()]);
    // fullwidth digits (U+FF11, U+FF12) and a four-byte digit (U+1D7CE)
    let packet = "~m~\u{ff11}\u{ff12}~m~a~m~\u{1d7ce}~m~b".as_bytes().to_vec();
    assert_eq!(split_frames(&packet), vec![b"a".to_vec(), b"b".to_vec()]);
    // a letter is no digit
    let packet = "~m~\u{e9}~m~c".as_bytes().to_vec();
    assert_eq!(split_frames(&packet), vec![packet.clone()]);
}

#[test]
fn heartbeats_with_other_decimal_digits_are_unreadable() {
    assert_eq!(classify_payload(&"~h~\u{662}".as_bytes().to_vec()), PayloadKind::HeartbeatUnreadable);
    assert_eq!(classify_payload(&"~h~1\u{ff12}".as_bytes().to_vec()), PayloadKind::HeartbeatUnreadable);
    assert_eq!(classify_payload(&"~h~\u{e9}~h~5".as_bytes().to_vec()), PayloadKind::Heartbeat(5));
}
