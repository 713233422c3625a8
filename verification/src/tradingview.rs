use vstd::prelude::*;

use crate::json_reads::{json_has_at, json_text_at, read_has_at, read_text_at};
use crate::strings::str_equals;
use crate::thinkorswim::FieldRead;

verus! {

/// The kinds of messages a TradingView websocket session delivers.
#[derive(PartialEq, Eq, Structural, Debug, Clone, Copy)]
pub enum TradingViewMessageType {
    ServerInfo,
    Ping,
    QsdFounded,
    QsdSessionHolidays,
    QsdBidAsk,
    QsdLastPrice,
    QsdVolume,
    QsdRtUpdateTime,
    QsdFundamentalData,
    QsdEmptyTradeLoaded,
    QsdEmptyRtcTime,
    QsdAfterMarketLastPrice,
    DuSeries,
    DuStudy,
    TimescaleUpdate,
    StudyCompleted,
    SeriesCompleted,
    SymbolResolved,
    QuoteCompleted,
    SeriesLoading,
    StudyLoading,
}

/// What the classification of a buffered TradingView JSON message reads of it:
/// which paths exist and the text at `m`.
#[derive(Debug, Clone)]
pub struct MessageShape {
    /// `ping.id` exists.
    pub has_ping_id: bool,
    /// `session_id` exists.
    pub has_session_id: bool,
    /// The text at `m`, the message method.
    pub method: String,
    /// `p.1.v.founded` exists.
    pub has_founded: bool,
    /// `p.1.v.session_holidays` exists.
    pub has_session_holidays: bool,
    /// `p.1.v.bid_size` exists.
    pub has_bid_size: bool,
    /// `p.1.v.lp` exists.
    pub has_last_price: bool,
    /// `p.1.v.volume` exists.
    pub has_volume: bool,
    /// `p.1.v.rt-update-time` exists.
    pub has_rt_update_time: bool,
    /// `p.1.v.fundamental_data` exists.
    pub has_fundamental_data: bool,
    /// `p.1.v.trade_loaded` exists.
    pub has_trade_loaded: bool,
    /// `p.1.v.rch` exists.
    pub has_after_market_last_price: bool,
    /// `p.1.v.rtc_time` exists.
    pub has_rtc_time: bool,
    /// `p.1.series_parent_id` exists.
    pub has_series_parent_id: bool,
    /// `p.1.study_parent_id` exists.
    pub has_study_parent_id: bool,
}

/// Which fields of a `qsd` message's values (`p.1.v`) exist.
#[derive(PartialEq, Eq, Structural, Debug, Clone, Copy)]
pub struct QsdFields {
    pub founded: bool,
    pub session_holidays: bool,
    pub bid_size: bool,
    pub last_price: bool,
    pub volume: bool,
    pub rt_update_time: bool,
    pub fundamental_data: bool,
    pub trade_loaded: bool,
    pub rtc_time: bool,
    pub after_market_last_price: bool,
}

/// The type of a quote-session data (`qsd`) message from which of its fields
/// exist, by the first one found in this order.
pub open spec fn qsd_type(flags: QsdFields) -> Option<TradingViewMessageType> {
    if flags.founded {
        Some(TradingViewMessageType::QsdFounded)
    } else if flags.session_holidays {
        Some(TradingViewMessageType::QsdSessionHolidays)
    } else if flags.bid_size {
        Some(TradingViewMessageType::QsdBidAsk)
    } else if flags.last_price {
        Some(TradingViewMessageType::QsdLastPrice)
    } else if flags.volume {
        Some(TradingViewMessageType::QsdVolume)
    } else if flags.rt_update_time {
        Some(TradingViewMessageType::QsdRtUpdateTime)
    } else if flags.fundamental_data {
        Some(TradingViewMessageType::QsdFundamentalData)
    } else if flags.trade_loaded {
        Some(TradingViewMessageType::QsdEmptyTradeLoaded)
    } else if flags.rtc_time {
        Some(TradingViewMessageType::QsdEmptyRtcTime)
    } else if flags.after_market_last_price {
        Some(TradingViewMessageType::QsdAfterMarketLastPrice)
    } else {
        None
    }
}

/// The `qsd` fields of a message shape.
pub open spec fn qsd_fields_of(shape: MessageShape) -> QsdFields {
    QsdFields {
        founded: shape.has_founded,
        session_holidays: shape.has_session_holidays,
        bid_size: shape.has_bid_size,
        last_price: shape.has_last_price,
        volume: shape.has_volume,
        rt_update_time: shape.has_rt_update_time,
        fundamental_data: shape.has_fundamental_data,
        trade_loaded: shape.has_trade_loaded,
        rtc_time: shape.has_rtc_time,
        after_market_last_price: shape.has_after_market_last_price,
    }
}

/// The type of a quote-session data (`qsd`) message, by the first field found.
pub open spec fn spec_qsd_type(shape: MessageShape) -> Option<TradingViewMessageType> {
    qsd_type(qsd_fields_of(shape))
}

/// The type of a data-update (`du`) message: of a series or of a study.
pub open spec fn du_type(series_parent: bool, study_parent: bool) -> Option<TradingViewMessageType> {
    if series_parent {
        Some(TradingViewMessageType::DuSeries)
    } else if study_parent {
        Some(TradingViewMessageType::DuStudy)
    } else {
        None
    }
}

/// The type of a message with any other method, by the method alone.
pub open spec fn named_method_type(m: Seq<char>) -> Option<TradingViewMessageType> {
    if m == "timescale_update"@ {
        Some(TradingViewMessageType::TimescaleUpdate)
    } else if m == "study_completed"@ {
        Some(TradingViewMessageType::StudyCompleted)
    } else if m == "series_completed"@ {
        Some(TradingViewMessageType::SeriesCompleted)
    } else if m == "symbol_resolved"@ {
        Some(TradingViewMessageType::SymbolResolved)
    } else if m == "quote_completed"@ {
        Some(TradingViewMessageType::QuoteCompleted)
    } else if m == "series_loading"@ {
        Some(TradingViewMessageType::SeriesLoading)
    } else if m == "study_loading"@ {
        Some(TradingViewMessageType::StudyLoading)
    } else {
        None
    }
}

/// The type of a message, or `None` for a message of unknown shape.
pub open spec fn spec_message_type(shape: MessageShape) -> Option<TradingViewMessageType> {
    let m = shape.method@;
    if shape.has_ping_id {
        Some(TradingViewMessageType::Ping)
    } else if shape.has_session_id {
        Some(TradingViewMessageType::ServerInfo)
    } else if m == "qsd"@ {
        spec_qsd_type(shape)
    } else if m == "du"@ {
        du_type(shape.has_series_parent_id, shape.has_study_parent_id)
    } else {
        named_method_type(m)
    }
}

/// Classifies a buffered TradingView message, or returns `None` for a message
/// of unknown shape.
pub fn classify_message(shape: &MessageShape) -> (message_type: Option<TradingViewMessageType>)
    ensures
        message_type == spec_message_type(*shape),
{
    if shape.has_ping_id {
        return Some(TradingViewMessageType::Ping);
    }
    if shape.has_session_id {
        return Some(TradingViewMessageType::ServerInfo);
    }
    let m = shape.method.as_str();
    if str_equals(m, "qsd") {
        if shape.has_founded {
            Some(TradingViewMessageType::QsdFounded)
        } else if shape.has_session_holidays {
            Some(TradingViewMessageType::QsdSessionHolidays)
        } else if shape.has_bid_size {
            Some(TradingViewMessageType::QsdBidAsk)
        } else if shape.has_last_price {
            Some(TradingViewMessageType::QsdLastPrice)
        } else if shape.has_volume {
            Some(TradingViewMessageType::QsdVolume)
        } else if shape.has_rt_update_time {
            Some(TradingViewMessageType::QsdRtUpdateTime)
        } else if shape.has_fundamental_data {
            Some(TradingViewMessageType::QsdFundamentalData)
        } else if shape.has_trade_loaded {
            Some(TradingViewMessageType::QsdEmptyTradeLoaded)
        } else if shape.has_rtc_time {
            Some(TradingViewMessageType::QsdEmptyRtcTime)
        } else if shape.has_after_market_last_price {
            Some(TradingViewMessageType::QsdAfterMarketLastPrice)
        } else {
            None
        }
    } else if str_equals(m, "du") {
        if shape.has_series_parent_id {
            Some(TradingViewMessageType::DuSeries)
        } else if shape.has_study_parent_id {
            Some(TradingViewMessageType::DuStudy)
        } else {
            None
        }
    } else if str_equals(m, "timescale_update") {
        Some(TradingViewMessageType::TimescaleUpdate)
    } else if str_equals(m, "study_completed") {
        Some(TradingViewMessageType::StudyCompleted)
    } else if str_equals(m, "series_completed") {
        Some(TradingViewMessageType::SeriesCompleted)
    } else if str_equals(m, "symbol_resolved") {
        Some(TradingViewMessageType::SymbolResolved)
    } else if str_equals(m, "quote_completed") {
        Some(TradingViewMessageType::QuoteCompleted)
    } else if str_equals(m, "series_loading") {
        Some(TradingViewMessageType::SeriesLoading)
    } else if str_equals(m, "study_loading") {
        Some(TradingViewMessageType::StudyLoading)
    } else {
        None
    }
}

// ---------------------------------------------------------------------------
// Classifying received payloads

/// Whether a value is at `path` of a payload, where the payload is JSON and
/// the check can be made.
pub open spec fn has_at(payload: Seq<u8>, path: Seq<char>) -> Option<bool> {
    match json_has_at(payload, path) {
        Some(Ok(found)) => Some(found),
        _ => None,
    }
}

fn has_at_of(payload: &Vec<u8>, path: &str) -> (found: Option<bool>)
    ensures
        found == has_at(payload@, path@),
{
    match read_has_at(payload, path) {
        Some(Ok(found)) => Some(found),
        _ => None,
    }
}

/// Which `qsd` fields of a payload exist; `None` where one of the ten checks
/// cannot be made.
pub open spec fn qsd_reads(payload: Seq<u8>) -> Option<QsdFields> {
    let founded = has_at(payload, "p.1.v.founded"@);
    let session_holidays = has_at(payload, "p.1.v.session_holidays"@);
    let bid_size = has_at(payload, "p.1.v.bid_size"@);
    let last_price = has_at(payload, "p.1.v.lp"@);
    let volume = has_at(payload, "p.1.v.volume"@);
    let rt_update_time = has_at(payload, "p.1.v.rt-update-time"@);
    let fundamental_data = has_at(payload, "p.1.v.fundamental_data"@);
    let trade_loaded = has_at(payload, "p.1.v.trade_loaded"@);
    let after_market_last_price = has_at(payload, "p.1.v.rch"@);
    let rtc_time = has_at(payload, "p.1.v.rtc_time"@);
    if founded is Some && session_holidays is Some && bid_size is Some && last_price is Some && volume is Some && rt_update_time is Some && fundamental_data is Some && trade_loaded is Some && after_market_last_price is Some && rtc_time is Some {
        Some(
            QsdFields {
            founded: founded.unwrap(),
            session_holidays: session_holidays.unwrap(),
            bid_size: bid_size.unwrap(),
            last_price: last_price.unwrap(),
            volume: volume.unwrap(),
            rt_update_time: rt_update_time.unwrap(),
            fundamental_data: fundamental_data.unwrap(),
            trade_loaded: trade_loaded.unwrap(),
            after_market_last_price: after_market_last_price.unwrap(),
            rtc_time: rtc_time.unwrap(),
            },
        )
    } else {
        None
    }
}

/// Whether a `du` payload belongs to a series and to a study; `None` where
/// one of the two checks cannot be made.
pub open spec fn du_reads(payload: Seq<u8>) -> Option<(bool, bool)> {
    let series = has_at(payload, "p.1.series_parent_id"@);
    let study = has_at(payload, "p.1.study_parent_id"@);
    if series is Some && study is Some {
        Some((series.unwrap(), study.unwrap()))
    } else {
        None
    }
}

/// The type of a payload with method `m`.
pub open spec fn method_payload_type(payload: Seq<u8>, m: Seq<char>) -> Option<TradingViewMessageType> {
    if m == "qsd"@ {
        match qsd_reads(payload) {
            Some(flags) => qsd_type(flags),
            None => None,
        }
    } else if m == "du"@ {
        match du_reads(payload) {
            Some((series, study)) => du_type(series, study),
            None => None,
        }
    } else {
        named_method_type(m)
    }
}

/// The type of a received JSON payload, read path by path: a ping where a
/// value is at `ping.id` (a failed check counts as none), server information
/// where one is at `session_id`, otherwise by the text at `m` and the fields
/// its method calls for. `None` where the payload is no JSON, a check or the
/// method cannot be read, or the shape is unknown.
pub open spec fn spec_payload_message_type(payload: Seq<u8>) -> Option<TradingViewMessageType> {
    match json_has_at(payload, "ping.id"@) {
        None => None,
        Some(ping) => if ping == Ok::<bool, ()>(true) {
            Some(TradingViewMessageType::Ping)
        } else {
            match has_at(payload, "session_id"@) {
                None => None,
                Some(true) => Some(TradingViewMessageType::ServerInfo),
                Some(false) => match json_text_at(payload, "m"@) {
                    Some(FieldRead::Text(m)) => method_payload_type(payload, m@),
                    _ => None,
                },
            }
        }
    }
}

/// Classifies a received JSON payload of the TradingView session, or returns
/// `None` where it is no JSON or of unknown shape.
pub fn classify_data_payload(payload: &Vec<u8>) -> (message_type: Option<TradingViewMessageType>)
    ensures
        message_type == spec_payload_message_type(payload@),
{
    let ping = match read_has_at(payload, "ping.id") {
        Some(ping) => ping,
        None => {
            return None;
        },
    };
    match ping {
        Ok(true) => {
            return Some(TradingViewMessageType::Ping);
        },
        _ => {},
    }
    match has_at_of(payload, "session_id") {
        Some(true) => {
            return Some(TradingViewMessageType::ServerInfo);
        },
        Some(false) => {},
        None => {
            return None;
        },
    }
    let m = match read_text_at(payload, "m") {
        Some(FieldRead::Text(m)) => m,
        _ => {
            return None;
        },
    };
    let ghost method = m@;
    let mut shape = MessageShape {
        has_ping_id: false,
        has_session_id: false,
        method: m,
        has_founded: false,
        has_session_holidays: false,
        has_bid_size: false,
        has_last_price: false,
        has_volume: false,
        has_rt_update_time: false,
        has_fundamental_data: false,
        has_trade_loaded: false,
        has_after_market_last_price: false,
        has_rtc_time: false,
        has_series_parent_id: false,
        has_study_parent_id: false,
    };
    if str_equals(shape.method.as_str(), "qsd") {
        let founded = has_at_of(payload, "p.1.v.founded");
        let session_holidays = has_at_of(payload, "p.1.v.session_holidays");
        let bid_size = has_at_of(payload, "p.1.v.bid_size");
        let last_price = has_at_of(payload, "p.1.v.lp");
        let volume = has_at_of(payload, "p.1.v.volume");
        let rt_update_time = has_at_of(payload, "p.1.v.rt-update-time");
        let fundamental_data = has_at_of(payload, "p.1.v.fundamental_data");
        let trade_loaded = has_at_of(payload, "p.1.v.trade_loaded");
        let after_market_last_price = has_at_of(payload, "p.1.v.rch");
        let rtc_time = has_at_of(payload, "p.1.v.rtc_time");
        if founded.is_none() || session_holidays.is_none() || bid_size.is_none() || last_price.is_none() || volume.is_none() || rt_update_time.is_none() || fundamental_data.is_none() || trade_loaded.is_none() || after_market_last_price.is_none() || rtc_time.is_none() {
            return None;
        }
        shape.has_founded = founded.unwrap();
        shape.has_session_holidays = session_holidays.unwrap();
        shape.has_bid_size = bid_size.unwrap();
        shape.has_last_price = last_price.unwrap();
        shape.has_volume = volume.unwrap();
        shape.has_rt_update_time = rt_update_time.unwrap();
        shape.has_fundamental_data = fundamental_data.unwrap();
        shape.has_trade_loaded = trade_loaded.unwrap();
        shape.has_after_market_last_price = after_market_last_price.unwrap();
        shape.has_rtc_time = rtc_time.unwrap();
        assert(qsd_reads(payload@) == Some(qsd_fields_of(shape)));
    } else if str_equals(shape.method.as_str(), "du") {
        let series = has_at_of(payload, "p.1.series_parent_id");
        let study = has_at_of(payload, "p.1.study_parent_id");
        if series.is_none() || study.is_none() {
            return None;
        }
        shape.has_series_parent_id = series.unwrap();
        shape.has_study_parent_id = study.unwrap();
    }
    assert(shape.method@ == method);
    classify_message(&shape)
}

/// Picks the candles message: the index of the first timescale update among
/// the classified messages, if any.
pub fn find_timescale_update(message_types: &Vec<TradingViewMessageType>) -> (index: Option<usize>)
    ensures
        match index {
            Some(i) => i < message_types.len() && message_types@[i as int] == TradingViewMessageType::TimescaleUpdate
                && forall|j: int| 0 <= j < i ==> message_types@[j] != TradingViewMessageType::TimescaleUpdate,
            None => forall|j: int|
                0 <= j < message_types.len() ==> message_types@[j] != TradingViewMessageType::TimescaleUpdate,
        },
{
    let n = message_types.len();
    for i in 0..n
        invariant
            n == message_types.len(),
            forall|j: int| 0 <= j < i ==> message_types@[j] != TradingViewMessageType::TimescaleUpdate,
    {
        if message_types[i] == TradingViewMessageType::TimescaleUpdate {
            return Some(i);
        }
    }
    None
}

// ---------------------------------------------------------------------------
// Laws

/// The method a message of type `t` carries (`qsd` and `du` for their kinds;
/// the ping and the server information carry none).
pub open spec fn method_name_of(t: TradingViewMessageType) -> Seq<char> {
    match t {
        TradingViewMessageType::ServerInfo => Seq::empty(),
        TradingViewMessageType::Ping => Seq::empty(),
        TradingViewMessageType::QsdFounded => "qsd"@,
        TradingViewMessageType::QsdSessionHolidays => "qsd"@,
        TradingViewMessageType::QsdBidAsk => "qsd"@,
        TradingViewMessageType::QsdLastPrice => "qsd"@,
        TradingViewMessageType::QsdVolume => "qsd"@,
        TradingViewMessageType::QsdRtUpdateTime => "qsd"@,
        TradingViewMessageType::QsdFundamentalData => "qsd"@,
        TradingViewMessageType::QsdEmptyTradeLoaded => "qsd"@,
        TradingViewMessageType::QsdEmptyRtcTime => "qsd"@,
        TradingViewMessageType::QsdAfterMarketLastPrice => "qsd"@,
        TradingViewMessageType::DuSeries => "du"@,
        TradingViewMessageType::DuStudy => "du"@,
        TradingViewMessageType::TimescaleUpdate => "timescale_update"@,
        TradingViewMessageType::StudyCompleted => "study_completed"@,
        TradingViewMessageType::SeriesCompleted => "series_completed"@,
        TradingViewMessageType::SymbolResolved => "symbol_resolved"@,
        TradingViewMessageType::QuoteCompleted => "quote_completed"@,
        TradingViewMessageType::SeriesLoading => "series_loading"@,
        TradingViewMessageType::StudyLoading => "study_loading"@,
    }
}

/// The field of a `qsd` or `du` message that its type stands for exists.
pub open spec fn type_field_present(t: TradingViewMessageType, shape: MessageShape) -> bool {
    match t {
        TradingViewMessageType::QsdFounded => shape.has_founded,
        TradingViewMessageType::QsdSessionHolidays => shape.has_session_holidays,
        TradingViewMessageType::QsdBidAsk => shape.has_bid_size,
        TradingViewMessageType::QsdLastPrice => shape.has_last_price,
        TradingViewMessageType::QsdVolume => shape.has_volume,
        TradingViewMessageType::QsdRtUpdateTime => shape.has_rt_update_time,
        TradingViewMessageType::QsdFundamentalData => shape.has_fundamental_data,
        TradingViewMessageType::QsdEmptyTradeLoaded => shape.has_trade_loaded,
        TradingViewMessageType::QsdEmptyRtcTime => shape.has_rtc_time,
        TradingViewMessageType::QsdAfterMarketLastPrice => shape.has_after_market_last_price,
        TradingViewMessageType::DuSeries => shape.has_series_parent_id,
        TradingViewMessageType::DuStudy => shape.has_study_parent_id,
        _ => true,
    }
}

/// A message's type names what the message holds: a ping has a ping id;
/// server information has a session id and no ping id; any other type comes
/// from a message with neither, whose method is the type's own method and in
/// which the field the type stands for exists. So no two methods share a
/// type, and a message is never given the type of another method.
pub proof fn law_type_names_the_message(shape: MessageShape)
    ensures
        match spec_message_type(shape) {
            Some(TradingViewMessageType::Ping) => shape.has_ping_id,
            Some(TradingViewMessageType::ServerInfo) => !shape.has_ping_id && shape.has_session_id,
            Some(t) => {
                &&& !shape.has_ping_id
                &&& !shape.has_session_id
                &&& shape.method@ == method_name_of(t)
                &&& type_field_present(t, shape)
            },
            None => true,
        },
{
}

/// Every message without a ping id or session id whose method is one of the
/// seven plain methods (`timescale_update`, `study_completed`,
/// `series_completed`, `symbol_resolved`, `quote_completed`,
/// `series_loading`, `study_loading`) is classified.
pub proof fn law_plain_methods_are_classified(shape: MessageShape)
    requires
        !shape.has_ping_id,
        !shape.has_session_id,
        shape.method@ == "timescale_update"@ || shape.method@ == "study_completed"@ || shape.method@
            == "series_completed"@ || shape.method@ == "symbol_resolved"@ || shape.method@ == "quote_completed"@
            || shape.method@ == "series_loading"@ || shape.method@ == "study_loading"@,
    ensures
        spec_message_type(shape) is Some,
{
    reveal_strlit("qsd");
    reveal_strlit("du");
    reveal_strlit("timescale_update");
    reveal_strlit("study_completed");
    reveal_strlit("series_completed");
    reveal_strlit("symbol_resolved");
    reveal_strlit("quote_completed");
    reveal_strlit("series_loading");
    reveal_strlit("study_loading");
    assert("qsd"@.len() == 3 && "du"@.len() == 2);
}

/// A received payload's type names what it holds: a ping has a value at
/// `ping.id`; server information has one at `session_id`; any other type
/// comes from a payload whose text at `m` is the type's own method.
pub proof fn law_payload_type_names_the_payload(payload: Seq<u8>)
    ensures
        match spec_payload_message_type(payload) {
            Some(TradingViewMessageType::Ping) => json_has_at(payload, "ping.id"@) == Some(Ok::<bool, ()>(true)),
            Some(TradingViewMessageType::ServerInfo) => has_at(payload, "session_id"@) == Some(true),
            Some(t) => match json_text_at(payload, "m"@) {
                Some(FieldRead::Text(m)) => m@ == method_name_of(t),
                _ => false,
            },
            None => true,
        },
{
}

} // verus!
