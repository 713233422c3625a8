use vstd::prelude::*;

use crate::strings::str_equals;

verus! {

/// The market-data providers that candles and quotes can be fetched from.
#[derive(PartialEq, Eq, Structural, Debug, Clone, Copy)]
pub enum Provider {
    Finnhub,
    YahooFinance,
    Polygon,
    Robinhood,
    ThinkOrSwim,
    TradingView,
    AlphaVantage,
}

/// The provider a configuration name stands for, if any.
pub open spec fn spec_provider_named(name: Seq<char>) -> Option<Provider> {
    if name == "finnhub"@ {
        Some(Provider::Finnhub)
    } else if name == "yahoo_finance"@ {
        Some(Provider::YahooFinance)
    } else if name == "polygon"@ {
        Some(Provider::Polygon)
    } else if name == "robinhood"@ {
        Some(Provider::Robinhood)
    } else if name == "thinkorswim"@ {
        Some(Provider::ThinkOrSwim)
    } else if name == "tradingview"@ {
        Some(Provider::TradingView)
    } else if name == "alpha_vantage"@ {
        Some(Provider::AlphaVantage)
    } else {
        None
    }
}

impl Provider {
    /// Reads a provider from its configuration name; any other text is refused.
    pub fn from_name(s: &str) -> (provider: Result<Provider, ()>)
        ensures
            match spec_provider_named(s@) {
                Some(p) => provider == Ok::<Provider, ()>(p),
                None => provider is Err,
            },
    {
        if str_equals(s, "finnhub") {
            Ok(Provider::Finnhub)
        } else if str_equals(s, "yahoo_finance") {
            Ok(Provider::YahooFinance)
        } else if str_equals(s, "polygon") {
            Ok(Provider::Polygon)
        } else if str_equals(s, "robinhood") {
            Ok(Provider::Robinhood)
        } else if str_equals(s, "thinkorswim") {
            Ok(Provider::ThinkOrSwim)
        } else if str_equals(s, "tradingview") {
            Ok(Provider::TradingView)
        } else if str_equals(s, "alpha_vantage") {
            Ok(Provider::AlphaVantage)
        } else {
            Err(())
        }
    }
}

impl std::str::FromStr for Provider {
    type Err = ();

    /// Reads a provider from its configuration name, as `from_name` does.
    fn from_str(s: &str) -> (provider: Result<Provider, ()>)
        ensures
            match spec_provider_named(s@) {
                Some(p) => provider == Ok::<Provider, ()>(p),
                None => provider is Err,
            },
    {
        Provider::from_name(s)
    }
}

/// Candles read from monthly intraday CSV exports.
pub struct AlphaVantage {}

impl AlphaVantage {
    /// A provider handle; it holds no state.
    pub fn new() -> (provider: AlphaVantage)
        ensures
            provider == (AlphaVantage {}),
    {
        AlphaVantage {}
    }
}

/// Candle `k` lies in the window `[from, to]`.
pub open spec fn in_window(timestamps: Seq<i64>, k: int, from: i64, to: i64) -> bool {
    0 <= k < timestamps.len() && from <= timestamps[k] && timestamps[k] <= to
}

/// Candle `a` comes before candle `b` once sorted by time; candles of the
/// same time keep the order in which they were read.
pub open spec fn sorts_before(timestamps: Seq<i64>, a: int, b: int) -> bool {
    timestamps[a] < timestamps[b] || (timestamps[a] == timestamps[b] && a < b)
}

/// `order` lists exactly the candles in the window `[from, to]`, sorted by
/// time, ties in the order read.
pub open spec fn is_window_order(timestamps: Seq<i64>, from: i64, to: i64, order: Seq<usize>) -> bool {
    &&& forall|i: int| 0 <= i < order.len() ==> in_window(timestamps, #[trigger] order[i] as int, from, to)
    &&& forall|i: int, j: int|
        0 <= i < j < order.len() ==> sorts_before(timestamps, #[trigger] order[i] as int, #[trigger] order[j] as int)
    &&& forall|k: int| in_window(timestamps, k, from, to) ==> order.contains(k as usize)
}

/// The order in which the candles read from the exports are returned: the
/// positions of the candles whose timestamps lie in `[from, to]`, sorted by
/// timestamp, candles of equal timestamps in the order read.
pub fn order_candles_in_window(timestamps: &Vec<i64>, from: i64, to: i64) -> (order: Vec<usize>)
    ensures
        is_window_order(timestamps@, from, to, order@),
{
    let n = timestamps.len();
    let mut order: Vec<usize> = Vec::new();
    for k in 0..n
        invariant
            n == timestamps.len(),
            forall|i: int| 0 <= i < order.len() ==> #[trigger] order@[i] < k,
            forall|i: int| 0 <= i < order.len() ==> in_window(timestamps@, #[trigger] order@[i] as int, from, to),
            forall|i: int, j: int|
                0 <= i < j < order.len() ==> sorts_before(
                    timestamps@,
                    #[trigger] order@[i] as int,
                    #[trigger] order@[j] as int,
                ),
            forall|c: int| 0 <= c < k && in_window(timestamps@, c, from, to) ==> order@.contains(c as usize),
    {
        let t = timestamps[k];
        if from <= t && t <= to {
            let len = order.len();
            let mut p: usize = 0;
            while p < len && timestamps[order[p]] <= t
                invariant
                    len == order.len(),
                    p <= len,
                    k < n,
                    n == timestamps.len(),
                    forall|i: int| 0 <= i < order.len() ==> #[trigger] order@[i] < k,
                    forall|i: int| 0 <= i < p ==> timestamps@[#[trigger] order@[i] as int] <= t,
                decreases len - p,
            {
                p = p + 1;
            }
            let ghost before = order@;
            order.insert(p, k);
            proof {
                assert(order@ == before.insert(p as int, k));
                assert forall|i: int, j: int|
                    0 <= i < j < order.len() implies sorts_before(
                    timestamps@,
                    #[trigger] order@[i] as int,
                    #[trigger] order@[j] as int,
                ) by {
                    if j < p {
                        assert(order@[i] == before[i] && order@[j] == before[j]);
                    } else if j == p {
                        assert(order@[i] == before[i]);
                        assert(timestamps@[before[i] as int] <= t);
                    } else if i < p {
                        assert(order@[i] == before[i] && order@[j] == before[j - 1]);
                    } else if i == p {
                        assert(order@[j] == before[j - 1]);
                        assert(timestamps@[before[p as int] as int] > t);
                        assert(sorts_before(timestamps@, before[p as int] as int, before[j - 1] as int) || j - 1 == p);
                    } else {
                        assert(order@[i] == before[i - 1] && order@[j] == before[j - 1]);
                    }
                }
                assert forall|c: int| 0 <= c < k + 1 && in_window(timestamps@, c, from, to) implies order@.contains(
                    c as usize,
                ) by {
                    if c < k {
                        let w = choose|w: int| 0 <= w < before.len() && before[w] == c as usize;
                        if w < p {
                            assert(order@[w] == c as usize);
                        } else {
                            assert(order@[w + 1] == c as usize);
                        }
                    } else {
                        assert(order@[p as int] == k);
                    }
                }
            }
        } else {
            assert forall|c: int| 0 <= c < k + 1 && in_window(timestamps@, c, from, to) implies order@.contains(
                c as usize,
            ) by {}
        }
    }
    order
}

/// The providers that candles can be fetched from by name: all but the
/// options brokers Robinhood and thinkorswim.
pub open spec fn spec_candle_source(name: Seq<char>) -> Option<Provider> {
    match spec_provider_named(name) {
        Some(Provider::Robinhood) => None,
        Some(Provider::ThinkOrSwim) => None,
        other => other,
    }
}

/// The provider to fetch candles from, by its configuration name; `None`
/// for a name that is no candle source.
pub fn candle_source(name: &str) -> (provider: Option<Provider>)
    ensures
        provider == spec_candle_source(name@),
{
    match Provider::from_name(name) {
        Ok(Provider::Robinhood) => None,
        Ok(Provider::ThinkOrSwim) => None,
        Ok(provider) => Some(provider),
        Err(()) => None,
    }
}

/// Every candle of `order` sorts before every later one.
pub open spec fn strictly_sorted(timestamps: Seq<i64>, order: Seq<usize>) -> bool {
    forall|i: int, j: int|
        0 <= i < j < order.len() ==> sorts_before(timestamps, #[trigger] order[i] as int, #[trigger] order[j] as int)
}

proof fn lemma_sorted_listings_agree(timestamps: Seq<i64>, a: Seq<usize>, b: Seq<usize>)
    requires
        strictly_sorted(timestamps, a),
        strictly_sorted(timestamps, b),
        forall|x: usize| a.contains(x) <==> b.contains(x),
    ensures
        a == b,
    decreases a.len(),
{
    if a.len() == 0 {
        if b.len() > 0 {
            assert(b.contains(b[0]));
        }
        assert(a =~= b);
    } else {
        assert(a.contains(a[0]));
        let j = choose|j: int| 0 <= j < b.len() && b[j] == a[0];
        assert(b.contains(b[0]));
        let i = choose|i: int| 0 <= i < a.len() && a[i] == b[0];
        if i > 0 && j > 0 {
            assert(sorts_before(timestamps, a[0] as int, a[i] as int));
            assert(sorts_before(timestamps, b[0] as int, b[j] as int));
        }
        assert(a[0] == b[0]);
        let a2 = a.drop_first();
        let b2 = b.drop_first();
        assert forall|x: usize| a2.contains(x) implies b2.contains(x) by {
            let k = choose|k: int| 0 <= k < a2.len() && a2[k] == x;
            assert(a[k + 1] == x);
            assert(sorts_before(timestamps, a[0] as int, a[k + 1] as int));
            assert(a.contains(x));
            let m = choose|m: int| 0 <= m < b.len() && b[m] == x;
            assert(m != 0);
            assert(b2[m - 1] == x);
        }
        assert forall|x: usize| b2.contains(x) implies a2.contains(x) by {
            let k = choose|k: int| 0 <= k < b2.len() && b2[k] == x;
            assert(b[k + 1] == x);
            assert(sorts_before(timestamps, b[0] as int, b[k + 1] as int));
            assert(b.contains(x));
            let m = choose|m: int| 0 <= m < a.len() && a[m] == x;
            assert(m != 0);
            assert(a2[m - 1] == x);
        }
        assert(strictly_sorted(timestamps, a2)) by {
            assert forall|p: int, q: int| 0 <= p < q < a2.len() implies sorts_before(
                timestamps,
                #[trigger] a2[p] as int,
                #[trigger] a2[q] as int,
            ) by {
                assert(a2[p] == a[p + 1] && a2[q] == a[q + 1]);
            }
        }
        assert(strictly_sorted(timestamps, b2)) by {
            assert forall|p: int, q: int| 0 <= p < q < b2.len() implies sorts_before(
                timestamps,
                #[trigger] b2[p] as int,
                #[trigger] b2[q] as int,
            ) by {
                assert(b2[p] == b[p + 1] && b2[q] == b[q + 1]);
            }
        }
        lemma_sorted_listings_agree(timestamps, a2, b2);
        assert forall|k: int| 0 <= k < a.len() implies a[k] == b[k] by {
            if k > 0 {
                assert(a[k] == a2[k - 1] && b[k] == b2[k - 1]);
            }
        }
        assert(a =~= b);
    }
}

/// The order of the candles of a window is fully determined: any two
/// listings of exactly the window's candles, sorted by time with ties in the
/// order read, are the same.
pub proof fn law_window_order_is_unique(timestamps: Seq<i64>, from: i64, to: i64, a: Seq<usize>, b: Seq<usize>)
    requires
        is_window_order(timestamps, from, to, a),
        is_window_order(timestamps, from, to, b),
    ensures
        a == b,
{
    assert forall|x: usize| a.contains(x) <==> b.contains(x) by {
        if a.contains(x) {
            let i = choose|i: int| 0 <= i < a.len() && a[i] == x;
            assert(in_window(timestamps, a[i] as int, from, to));
        }
        if b.contains(x) {
            let i = choose|i: int| 0 <= i < b.len() && b[i] == x;
            assert(in_window(timestamps, b[i] as int, from, to));
        }
    }
    lemma_sorted_listings_agree(timestamps, a, b);
}

} // verus!
