use vstd::prelude::*;

use crate::strings::str_equals;

verus! {

#[derive(Debug, Clone)]
pub struct CashComponent {}

#[derive(Debug, Clone)]
pub struct UnderlyingInstrument {
    pub id: String,
    pub instrument: String,
    pub quantity: u32,
}

#[derive(Debug, Clone)]
pub struct MinTicks {
    pub above_tick: String,
    pub below_tick: String,
    pub cutoff_price: String,
}

/// An options chain of an underlying symbol.
#[derive(Debug, Clone)]
pub struct Chain {
    pub id: String,
    pub symbol: String,
    pub can_open_position: bool,
    pub cash_component: Option<CashComponent>,
    pub expiration_dates: Vec<String>,
    pub trade_value_multiplier: String,
    pub underlying_instruments: Vec<UnderlyingInstrument>,
    pub min_ticks: MinTicks,
}

/// A quote of an underlying symbol; prices are decimal texts.
#[derive(Debug, Clone)]
pub struct Quote {
    pub ask_price: String,
    pub ask_size: u32,
    pub bid_price: String,
    pub bid_size: u32,
    pub last_trade_price: String,
    pub last_extended_hours_trade_price: Option<String>,
    pub last_non_reg_trade_price: Option<String>,
    pub previous_close: String,
    pub adjusted_previous_close: String,
    pub previous_close_date: String,
    pub symbol: String,
    pub trading_halted: bool,
    pub has_traded: bool,
    pub last_trade_price_source: String,
    pub last_non_reg_trade_price_source: String,
    pub updated_at: String,
    pub instrument: String,
    pub instrument_id: String,
    pub state: String,
}

/// One option contract; `option_type` is `"call"` or `"put"`.
#[derive(Debug, Clone)]
pub struct OptionInstrument {
    pub chain_id: String,
    pub chain_symbol: String,
    pub created_at: String,
    pub expiration_date: String,
    pub id: String,
    pub issue_date: String,
    pub min_ticks: MinTicks,
    pub rhs_tradability: String,
    pub tradability_for_late_closing_etfs: Option<String>,
    pub state: String,
    pub strike_price: String,
    pub tradability: String,
    pub option_type: String,
    pub updated_at: String,
    pub url: String,
    pub sellout_datetime: String,
    pub long_strategy_code: String,
    pub short_strategy_code: String,
}

/// One page of option contracts.
#[derive(Debug, Clone)]
pub struct OptionsInstrumentsResults {
    pub results: Vec<OptionInstrument>,
    pub next: Option<String>,
    pub prev: Option<String>,
}

/// Market data (quote and greeks) of one option contract.
#[derive(Debug, Clone)]
pub struct OptionMarketData {
    pub adjusted_mark_price: String,
    pub adjusted_mark_price_round_down: String,
    pub ask_price: String,
    pub ask_size: u32,
    pub bid_price: String,
    pub bid_size: u32,
    pub break_even_price: String,
    pub high_price: Option<String>,
    pub instrument: String,
    pub instrument_id: String,
    pub last_trade_price: Option<String>,
    pub last_trade_size: Option<u32>,
    pub low_price: Option<String>,
    pub mark_price: String,
    pub open_interest: u32,
    pub previous_close_date: String,
    pub previous_close_price: String,
    pub updated_at: String,
    pub volume: u32,
    pub symbol: String,
    pub occ_symbol: String,
    pub state: String,
    pub chance_of_profit_long: Option<String>,
    pub chance_of_profit_short: Option<String>,
    pub delta: Option<String>,
    pub gamma: Option<String>,
    pub implied_volatility: Option<String>,
    pub rho: Option<String>,
    pub theta: Option<String>,
    pub vega: Option<String>,
    pub high_fill_rate_buy_price: Option<String>,
    pub high_fill_rate_sell_price: Option<String>,
    pub low_fill_rate_buy_price: Option<String>,
    pub low_fill_rate_sell_price: Option<String>,
}

/// Market data of several option contracts; unknown contracts give `None`.
#[derive(Debug, Clone)]
pub struct OptionsMarketDataResult {
    pub results: Vec<Option<OptionMarketData>>,
}

/// The contracts of one expiration date with their market data.
#[derive(Debug, Clone)]
pub struct OptionSeries {
    pub options: Vec<OptionInstrument>,
    pub options_quotes: Vec<OptionMarketData>,
}

/// The distinct values of `values`, each at the position of its first occurrence.
pub open spec fn unique_texts(values: Seq<Seq<char>>) -> Seq<Seq<char>>
    decreases values.len(),
{
    if values.len() == 0 {
        Seq::empty()
    } else {
        let prefix = unique_texts(values.drop_last());
        if prefix.contains(values.last()) {
            prefix
        } else {
            prefix.push(values.last())
        }
    }
}

/// Keeps the first occurrence of each distinct text.
///
/// Trusted: calls itertools' `Itertools::unique` and collects the result.
/// Itertools documents that the adaptor is stable, keeping the first of each
/// group of equal items in the order they occur; the contract says so.
#[verifier::external_body]
fn unique_strings(values: Vec<String>) -> (unique: Vec<String>)
    ensures
        unique@.map_values(|s: String| s@) == unique_texts(values@.map_values(|s: String| s@)),
{
    itertools::Itertools::unique(values.into_iter()).collect()
}

/// The first of the first `n` contracts with the given type and strike price.
pub open spec fn find_option_below(
    options: Seq<OptionInstrument>,
    option_type: Seq<char>,
    strike_price: Seq<char>,
    n: int,
) -> Option<int>
    decreases n,
{
    if n <= 0 {
        None
    } else {
        match find_option_below(options, option_type, strike_price, n - 1) {
            Some(i) => Some(i),
            None => if options[n - 1].option_type@ == option_type && options[n - 1].strike_price@ == strike_price {
                Some(n - 1)
            } else {
                None
            },
        }
    }
}

/// The first contract of the given type (`"call"` or `"put"`) and strike price.
pub open spec fn find_option(options: Seq<OptionInstrument>, option_type: Seq<char>, strike_price: Seq<char>) -> Option<int> {
    find_option_below(options, option_type, strike_price, options.len() as int)
}

/// The first of the first `n` market data entries of the contract with the given id.
pub open spec fn find_quote_below(quotes: Seq<OptionMarketData>, instrument_id: Seq<char>, n: int) -> Option<int>
    decreases n,
{
    if n <= 0 {
        None
    } else {
        match find_quote_below(quotes, instrument_id, n - 1) {
            Some(i) => Some(i),
            None => if quotes[n - 1].instrument_id@ == instrument_id {
                Some(n - 1)
            } else {
                None
            },
        }
    }
}

/// The first market data entry of the contract with the given id.
pub open spec fn find_quote(quotes: Seq<OptionMarketData>, instrument_id: Seq<char>) -> Option<int> {
    find_quote_below(quotes, instrument_id, quotes.len() as int)
}

/// A strike price with its call and put contract and their market data,
/// each given by its index in the input lists.
#[derive(PartialEq, Eq, Structural, Debug, Clone, Copy)]
pub struct SnapshotRow {
    pub strike_index: usize,
    pub call_index: usize,
    pub put_index: usize,
    pub call_quote_index: usize,
    pub put_quote_index: usize,
}

/// Every distinct strike price has a call and a put contract.
pub open spec fn strikes_have_call_and_put(options: Seq<OptionInstrument>, strikes: Seq<Seq<char>>) -> bool {
    forall|k: int|
        0 <= k < strikes.len() ==> find_option(options, "call"@, #[trigger] strikes[k]) is Some && find_option(
            options,
            "put"@,
            strikes[k],
        ) is Some
}

/// The row of strike `k`, or `None` when the call or the put lacks market
/// data, greeks (a delta) or a last trade price.
pub open spec fn snapshot_row(
    options: Seq<OptionInstrument>,
    quotes: Seq<OptionMarketData>,
    strikes: Seq<Seq<char>>,
    k: int,
) -> Option<SnapshotRow> {
    let call = find_option(options, "call"@, strikes[k]).unwrap();
    let put = find_option(options, "put"@, strikes[k]).unwrap();
    let call_quote = find_quote(quotes, options[call].id@);
    let put_quote = find_quote(quotes, options[put].id@);
    if call_quote is None || put_quote is None {
        None
    } else if quotes[call_quote.unwrap()].delta is None || quotes[put_quote.unwrap()].delta is None {
        None
    } else if quotes[call_quote.unwrap()].last_trade_price is None
        || quotes[put_quote.unwrap()].last_trade_price is None {
        None
    } else {
        Some(
            SnapshotRow {
                strike_index: k as usize,
                call_index: call as usize,
                put_index: put as usize,
                call_quote_index: call_quote.unwrap() as usize,
                put_quote_index: put_quote.unwrap() as usize,
            },
        )
    }
}

/// The rows of the first `n` strikes, skipping strikes without a row.
pub open spec fn snapshot_rows(
    options: Seq<OptionInstrument>,
    quotes: Seq<OptionMarketData>,
    strikes: Seq<Seq<char>>,
    n: int,
) -> Seq<SnapshotRow>
    decreases n,
{
    if n <= 0 {
        Seq::empty()
    } else {
        let prev = snapshot_rows(options, quotes, strikes, n - 1);
        match snapshot_row(options, quotes, strikes, n - 1) {
            Some(row) => prev.push(row),
            None => prev,
        }
    }
}

/// A row pairs a call and a put of its strike price with their own market data,
/// which has a delta and a last trade price.
pub open spec fn row_is_consistent(
    options: Seq<OptionInstrument>,
    quotes: Seq<OptionMarketData>,
    strikes: Seq<Seq<char>>,
    row: SnapshotRow,
) -> bool {
    &&& row.strike_index < strikes.len()
    &&& row.call_index < options.len() && row.put_index < options.len()
    &&& row.call_quote_index < quotes.len() && row.put_quote_index < quotes.len()
    &&& options[row.call_index as int].option_type@ == "call"@
    &&& options[row.put_index as int].option_type@ == "put"@
    &&& options[row.call_index as int].strike_price@ == strikes[row.strike_index as int]
    &&& options[row.put_index as int].strike_price@ == strikes[row.strike_index as int]
    &&& quotes[row.call_quote_index as int].instrument_id@ == options[row.call_index as int].id@
    &&& quotes[row.put_quote_index as int].instrument_id@ == options[row.put_index as int].id@
    &&& quotes[row.call_quote_index as int].delta is Some && quotes[row.put_quote_index as int].delta is Some
    &&& quotes[row.call_quote_index as int].last_trade_price is Some
    &&& quotes[row.put_quote_index as int].last_trade_price is Some
}

/// Every snapshot row is consistent, and the rows follow the order of the
/// strikes, one row per strike at most.
pub proof fn law_snapshot_rows_are_consistent(
    options: Seq<OptionInstrument>,
    quotes: Seq<OptionMarketData>,
    strikes: Seq<Seq<char>>,
    n: int,
)
    requires
        strikes_have_call_and_put(options, strikes),
        0 <= n <= strikes.len(),
        strikes.len() <= usize::MAX,
        options.len() <= usize::MAX,
        quotes.len() <= usize::MAX,
    ensures
        forall|j: int|
            0 <= j < snapshot_rows(options, quotes, strikes, n).len() ==> row_is_consistent(
                options,
                quotes,
                strikes,
                #[trigger] snapshot_rows(options, quotes, strikes, n)[j],
            ) && snapshot_rows(options, quotes, strikes, n)[j].strike_index < n,
        forall|a: int, b: int|
            0 <= a < b < snapshot_rows(options, quotes, strikes, n).len() ==> (#[trigger] snapshot_rows(
                options,
                quotes,
                strikes,
                n,
            )[a]).strike_index < (#[trigger] snapshot_rows(options, quotes, strikes, n)[b]).strike_index,
    decreases n,
{
    if n > 0 {
        law_snapshot_rows_are_consistent(options, quotes, strikes, n - 1);
        let k = n - 1;
        assert(find_option(options, "call"@, strikes[k]) is Some);
        let call = find_option(options, "call"@, strikes[k]).unwrap();
        let put = find_option(options, "put"@, strikes[k]).unwrap();
        lemma_find_option_bounds(options, "call"@, strikes[k]);
        lemma_find_option_bounds(options, "put"@, strikes[k]);
        lemma_find_quote_bounds(quotes, options[call].id@);
        lemma_find_quote_bounds(quotes, options[put].id@);
        let prev = snapshot_rows(options, quotes, strikes, n - 1);
        let cur = snapshot_rows(options, quotes, strikes, n);
        match snapshot_row(options, quotes, strikes, k) {
            Some(row) => {
                assert(cur == prev.push(row));
                assert(row_is_consistent(options, quotes, strikes, row));
                assert forall|j: int| 0 <= j < cur.len() implies row_is_consistent(
                    options,
                    quotes,
                    strikes,
                    #[trigger] cur[j],
                ) && cur[j].strike_index < n by {
                    if j < prev.len() {
                        assert(cur[j] == prev[j]);
                    }
                }
                assert forall|a: int, b: int| 0 <= a < b < cur.len() implies (#[trigger] cur[a]).strike_index < (
                #[trigger] cur[b]).strike_index by {
                    assert(cur[a] == prev[a]);
                    assert(prev[a].strike_index < n - 1);
                    if b < prev.len() {
                        assert(cur[b] == prev[b]);
                    }
                }
            },
            None => {
                assert(cur == prev);
            },
        }
    }
}

/// The distinct strike prices of the contracts, in order of first occurrence.
pub open spec fn distinct_strikes(options: Seq<OptionInstrument>) -> Seq<Seq<char>> {
    unique_texts(options.map_values(|o: OptionInstrument| o.strike_price@))
}

/// A contract found among the first `n` by type and strike price has that type
/// and strike price, and finding it among more contracts gives the same one.
proof fn lemma_find_option_below(
    options: Seq<OptionInstrument>,
    option_type: Seq<char>,
    strike_price: Seq<char>,
    n: int,
    m: int,
)
    requires
        0 <= n <= m,
    ensures
        find_option_below(options, option_type, strike_price, n) matches Some(i) ==> 0 <= i < n
            && options[i].option_type@ == option_type && options[i].strike_price@ == strike_price
            && find_option_below(options, option_type, strike_price, m) == Some(i),
    decreases m,
{
    if n < m {
        lemma_find_option_below(options, option_type, strike_price, n, m - 1);
    } else if n > 0 {
        lemma_find_option_below(options, option_type, strike_price, n - 1, n - 1);
    }
}

/// Market data found among the first `n` entries belongs to its contract, and
/// finding it among more entries gives the same one.
proof fn lemma_find_quote_below(quotes: Seq<OptionMarketData>, instrument_id: Seq<char>, n: int, m: int)
    requires
        0 <= n <= m,
    ensures
        find_quote_below(quotes, instrument_id, n) matches Some(i) ==> 0 <= i < n && quotes[i].instrument_id@
            == instrument_id && find_quote_below(quotes, instrument_id, m) == Some(i),
    decreases m,
{
    if n < m {
        lemma_find_quote_below(quotes, instrument_id, n, m - 1);
    } else if n > 0 {
        lemma_find_quote_below(quotes, instrument_id, n - 1, n - 1);
    }
}

/// A contract found by type and strike price has that type and strike price.
proof fn lemma_find_option_bounds(options: Seq<OptionInstrument>, option_type: Seq<char>, strike_price: Seq<char>)
    ensures
        find_option(options, option_type, strike_price) matches Some(i) ==> 0 <= i < options.len()
            && options[i].option_type@ == option_type && options[i].strike_price@ == strike_price,
{
    lemma_find_option_below(options, option_type, strike_price, options.len() as int, options.len() as int);
}

/// Market data found by contract id belongs to that contract.
proof fn lemma_find_quote_bounds(quotes: Seq<OptionMarketData>, instrument_id: Seq<char>)
    ensures
        find_quote(quotes, instrument_id) matches Some(i) ==> 0 <= i < quotes.len() && quotes[i].instrument_id@
            == instrument_id,
{
    lemma_find_quote_below(quotes, instrument_id, quotes.len() as int, quotes.len() as int);
}

/// Finds the first contract of the given type and strike price.
fn find_option_index(options: &Vec<OptionInstrument>, option_type: &str, strike_price: &str) -> (index: Option<usize>)
    ensures
        index is Some == find_option(options@, option_type@, strike_price@) is Some,
        index matches Some(i) ==> i < options.len() && i as int == find_option(
            options@,
            option_type@,
            strike_price@,
        ).unwrap(),
{
    let n = options.len();
    for i in 0..n
        invariant
            n == options.len(),
            find_option_below(options@, option_type@, strike_price@, i as int) is None,
    {
        if str_equals(options[i].option_type.as_str(), option_type) && str_equals(
            options[i].strike_price.as_str(),
            strike_price,
        ) {
            proof {
                lemma_find_option_below(options@, option_type@, strike_price@, i + 1, n as int);
            }
            return Some(i);
        }
    }
    None
}

/// Finds the first market data entry of the contract with the given id.
fn find_quote_index(quotes: &Vec<OptionMarketData>, instrument_id: &str) -> (index: Option<usize>)
    ensures
        index is Some == find_quote(quotes@, instrument_id@) is Some,
        index matches Some(i) ==> i < quotes.len() && i as int == find_quote(quotes@, instrument_id@).unwrap(),
{
    let n = quotes.len();
    for i in 0..n
        invariant
            n == quotes.len(),
            find_quote_below(quotes@, instrument_id@, i as int) is None,
    {
        if str_equals(quotes[i].instrument_id.as_str(), instrument_id) {
            proof {
                lemma_find_quote_below(quotes@, instrument_id@, i + 1, n as int);
            }
            return Some(i);
        }
    }
    None
}

/// Lists the distinct strike prices of the contracts, in order of first occurrence.
pub fn list_distinct_strikes(options: &Vec<OptionInstrument>) -> (strikes: Vec<String>)
    ensures
        strikes@.map_values(|s: String| s@) == distinct_strikes(options@),
{
    let mut strike_prices: Vec<String> = Vec::new();
    let n = options.len();
    for i in 0..n
        invariant
            n == options.len(),
            strike_prices@.map_values(|s: String| s@) == options@.subrange(0, i as int).map_values(
                |o: OptionInstrument| o.strike_price@,
            ),
    {
        strike_prices.push(options[i].strike_price.clone());
        assert(options@.subrange(0, i + 1).map_values(|o: OptionInstrument| o.strike_price@)
            =~= options@.subrange(0, i as int).map_values(|o: OptionInstrument| o.strike_price@).push(
            options@[i as int].strike_price@,
        ));
        assert(strike_prices@.map_values(|s: String| s@) =~= options@.subrange(0, i as int).map_values(
            |o: OptionInstrument| o.strike_price@,
        ).push(options@[i as int].strike_price@));
    }
    assert(options@.subrange(0, n as int) =~= options@);
    unique_strings(strike_prices)
}

/// Pairs the call and put contract of each distinct strike price with their
/// market data, in order of first occurrence of the strike, skipping strikes
/// whose call or put lacks market data, a delta, or a last trade price.
/// Returns the strikes and the rows (which refer to the strikes by index).
pub fn select_snapshot_rows(
    options: &Vec<OptionInstrument>,
    options_quotes: &Vec<OptionMarketData>,
) -> (selected: (Vec<String>, Vec<SnapshotRow>))
    requires
        strikes_have_call_and_put(options@, distinct_strikes(options@)),
    ensures
        selected.0@.map_values(|s: String| s@) == distinct_strikes(options@),
        selected.1@ == snapshot_rows(
            options@,
            options_quotes@,
            distinct_strikes(options@),
            distinct_strikes(options@).len() as int,
        ),
{
    let strike_prices = list_distinct_strikes(options);
    let ghost strikes = distinct_strikes(options@);
    let mut rows: Vec<SnapshotRow> = Vec::new();
    let n = strike_prices.len();
    assert(n == strikes.len()) by {
        assert(strike_prices@.map_values(|s: String| s@).len() == n);
    }
    for k in 0..n
        invariant
            n == strike_prices.len(),
            n == strikes.len(),
            strikes == distinct_strikes(options@),
            strike_prices@.map_values(|s: String| s@) == strikes,
            strikes_have_call_and_put(options@, strikes),
            rows@ == snapshot_rows(options@, options_quotes@, strikes, k as int),
    {
        let strike_price = strike_prices[k].as_str();
        assert(strike_price@ == strikes[k as int]) by {
            assert(strike_prices@.map_values(|s: String| s@)[k as int] == strike_prices@[k as int]@);
        }
        assert(find_option(options@, "call"@, strikes[k as int]) is Some);
        let ghost old_rows = rows@;
        let ghost row = snapshot_row(options@, options_quotes@, strikes, k as int);
        assert(snapshot_rows(options@, options_quotes@, strikes, k + 1) == match row {
            Some(r) => old_rows.push(r),
            None => old_rows,
        });
        let call_index = find_option_index(options, "call", strike_price).unwrap();
        let put_index = find_option_index(options, "put", strike_price).unwrap();
        let call_quote_index = find_quote_index(options_quotes, options[call_index].id.as_str());
        let put_quote_index = find_quote_index(options_quotes, options[put_index].id.as_str());
        assert(call_index == find_option(options@, "call"@, strikes[k as int]).unwrap());
        assert(put_index == find_option(options@, "put"@, strikes[k as int]).unwrap());
        // skip options with no quotes
        if call_quote_index.is_some() && put_quote_index.is_some() {
            let call_quote_index = call_quote_index.unwrap();
            let put_quote_index = put_quote_index.unwrap();
            // skip quotes with no greeks, and quotes with no last trade prices
            let has_greeks = options_quotes[call_quote_index].delta.is_some()
                && options_quotes[put_quote_index].delta.is_some();
            let has_last_trade_prices = options_quotes[call_quote_index].last_trade_price.is_some()
                && options_quotes[put_quote_index].last_trade_price.is_some();
            if has_greeks && has_last_trade_prices {
                assert(row == Some(
                    SnapshotRow { strike_index: k, call_index, put_index, call_quote_index, put_quote_index },
                ));
                rows.push(
                    SnapshotRow {
                        strike_index: k,
                        call_index,
                        put_index,
                        call_quote_index,
                        put_quote_index,
                    },
                );
            }
        }
    }
    (strike_prices, rows)
}

/// The bounds `[start, end)` of the consecutive chunks of at most `size`
/// items that cover the items from `start` on, out of `count`.
pub open spec fn chunk_bounds_from(start: int, count: int, size: int) -> Seq<(usize, usize)>
    decreases count - start,
{
    if size <= 0 || start >= count {
        seq![]
    } else {
        let end = if start + size < count {
            start + size
        } else {
            count
        };
        seq![(start as usize, end as usize)] + chunk_bounds_from(end, count, size)
    }
}

/// Splits `count` instrument ids into the chunks of at most `size` ids that
/// each market-data request asks for, in order; only the last chunk may be
/// shorter.
pub fn chunk_bounds(count: usize, size: usize) -> (chunks: Vec<(usize, usize)>)
    requires
        size > 0,
    ensures
        chunks@ == chunk_bounds_from(0, count as int, size as int),
{
    let mut chunks: Vec<(usize, usize)> = Vec::new();
    let mut start: usize = 0;
    assert(chunks@ + chunk_bounds_from(0, count as int, size as int) =~= chunk_bounds_from(0, count as int, size as int));
    while start < count
        invariant
            size > 0,
            start <= count,
            chunk_bounds_from(0, count as int, size as int) == chunks@ + chunk_bounds_from(
                start as int,
                count as int,
                size as int,
            ),
        decreases count - start,
    {
        let end = if count - start > size {
            start + size
        } else {
            count
        };
        let ghost rest = chunk_bounds_from(end as int, count as int, size as int);
        let ghost before = chunks@;
        chunks.push((start, end));
        assert(before + (seq![(start, end)] + rest) =~= chunks@ + rest);
        start = end;
    }
    assert(chunk_bounds_from(start as int, count as int, size as int) =~= Seq::<(usize, usize)>::empty());
    chunks
}

/// The chunks tile the ids: they start at the first id, end at the last,
/// follow one another without gap or overlap, and none is empty or longer
/// than the chunk size.
pub proof fn law_chunks_tile_the_ids(start: int, count: int, size: int)
    requires
        size > 0,
        0 <= start <= count,
        count <= usize::MAX,
    ensures
        (chunk_bounds_from(start, count, size).len() == 0) == (start == count),
        chunk_bounds_from(start, count, size).len() > 0 ==> {
            &&& chunk_bounds_from(start, count, size)[0].0 == start
            &&& chunk_bounds_from(start, count, size).last().1 == count
        },
        forall|k: int|
            0 <= k < chunk_bounds_from(start, count, size).len() ==> {
                let c = #[trigger] chunk_bounds_from(start, count, size)[k];
                c.0 < c.1 && c.1 <= c.0 + size
            },
        forall|j: int, k: int|
            0 <= j && k == j + 1 && k < chunk_bounds_from(start, count, size).len() ==> (#[trigger] chunk_bounds_from(
                start,
                count,
                size,
            )[j]).1 == (#[trigger] chunk_bounds_from(start, count, size)[k]).0,
    decreases count - start,
{
    if start < count {
        let end = if start + size < count {
            start + size
        } else {
            count
        };
        let all = chunk_bounds_from(start, count, size);
        let rest = chunk_bounds_from(end, count, size);
        law_chunks_tile_the_ids(end, count, size);
        assert(all == seq![(start as usize, end as usize)] + rest);
        assert forall|k: int| 0 <= k < all.len() implies {
            let c = #[trigger] all[k];
            c.0 < c.1 && c.1 <= c.0 + size
        } by {
            if k > 0 {
                assert(all[k] == rest[k - 1]);
            }
        }
        assert forall|j: int, k: int| 0 <= j && k == j + 1 && k < all.len() implies (#[trigger] all[j]).1 == (
        #[trigger] all[k]).0 by {
            assert(all[k] == rest[k - 1]);
            if j > 0 {
                assert(all[j] == rest[j - 1]);
            }
        }
        if rest.len() > 0 {
            assert(all.last() == rest.last());
        }
    }
}

/// Whether every distinct strike price has both a call and a put contract.
pub fn strikes_are_complete(options: &Vec<OptionInstrument>) -> (complete: bool)
    ensures
        complete == strikes_have_call_and_put(options@, distinct_strikes(options@)),
{
    let strike_prices = list_distinct_strikes(options);
    let ghost strikes = distinct_strikes(options@);
    let n = strike_prices.len();
    assert(n == strikes.len()) by {
        assert(strike_prices@.map_values(|s: String| s@).len() == n);
    }
    for k in 0..n
        invariant
            n == strike_prices.len(),
            n == strikes.len(),
            strikes == distinct_strikes(options@),
            strike_prices@.map_values(|s: String| s@) == strikes,
            forall|j: int|
                0 <= j < k ==> find_option(options@, "call"@, #[trigger] strikes[j]) is Some && find_option(
                    options@,
                    "put"@,
                    strikes[j],
                ) is Some,
    {
        let strike_price = strike_prices[k].as_str();
        assert(strike_price@ == strikes[k as int]) by {
            assert(strike_prices@.map_values(|s: String| s@)[k as int] == strike_prices@[k as int]@);
        }
        if find_option_index(options, "call", strike_price).is_none() || find_option_index(
            options,
            "put",
            strike_price,
        ).is_none() {
            return false;
        }
    }
    true
}

/// Like `select_snapshot_rows`, for any contracts: `None` when some distinct
/// strike price lacks its call or its put.
pub fn checked_select_snapshot_rows(
    options: &Vec<OptionInstrument>,
    options_quotes: &Vec<OptionMarketData>,
) -> (selected: Option<(Vec<String>, Vec<SnapshotRow>)>)
    ensures
        match selected {
            Some(sel) => {
                &&& strikes_have_call_and_put(options@, distinct_strikes(options@))
                &&& sel.0@.map_values(|s: String| s@) == distinct_strikes(options@)
                &&& sel.1@ == snapshot_rows(
                    options@,
                    options_quotes@,
                    distinct_strikes(options@),
                    distinct_strikes(options@).len() as int,
                )
            },
            None => !strikes_have_call_and_put(options@, distinct_strikes(options@)),
        },
{
    if strikes_are_complete(options) {
        Some(select_snapshot_rows(options, options_quotes))
    } else {
        None
    }
}

} // verus!
