//! Verified core of a stock-trading research toolkit: turning direction
//! signals into trades, deciding trade exits, classifying market sessions
//! and provider messages, and the plain data types shared by them.

pub mod structs;
pub mod dates;
pub mod trading;
pub mod signals;
pub mod signal_trades;
pub mod exits;
pub mod utilities;
pub mod strings;
pub mod market_session;
pub mod robinhood;
pub mod tradingview;
pub mod providers;
pub mod candle_scraper;
pub mod strategies;
pub mod tradingview_wire;
pub mod statistics;
pub mod thinkorswim;
pub mod candles;
pub mod events;
pub mod backtesting;
pub mod retry;
pub mod direction_rules;
pub mod trading_dates;
pub mod parameters;
pub mod scraping;
pub mod minutes;
pub mod json_reads;
