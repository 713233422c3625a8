# stocks_rs

A stock-market research toolkit: it turns strategy signals into trades,
backtests them, classifies market sessions and talks to several market-data
providers (TradingView, thinkorswim, Robinhood, Finnhub, Polygon, Yahoo
Finance, Alpha Vantage exports).

- `src/` is the library, verified with Verus: trade and event planning, trade
  exits and outcomes, entry stepping and warm-up counts, backtest bookkeeping,
  candle regrouping and ordering, market sessions and trading dates, the
  TradingView packet format, response
  selection for thinkorswim, option-chain assembly and request chunking for
  Robinhood, retry decisions, and the JSON reads that classify received
  TradingView and thinkorswim messages. Calls into chrono, chrono-tz,
  itertools, serde_json and json_dotpath go through a few trusted wrappers in
  `src/dates.rs`, `src/robinhood.rs` and `src/json_reads.rs`.
- `tests/` exercises the library on concrete values.
- `app/` holds the I/O and floating-point side: HTTP and websocket clients,
  the SQLite store, CSV and JSON files, indicator math and the backtest drivers.
