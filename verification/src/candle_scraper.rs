use vstd::prelude::*;

use crate::strings::str_equals;

verus! {

/// The providers the candle scraper can pull history from.
#[derive(PartialEq, Eq, Structural, Debug, Clone, Copy)]
pub enum Provider {
    Finnhub,
    YahooFinance,
    Polygon,
}

/// The scraper provider a configuration name stands for, if any.
pub open spec fn spec_scraper_provider_named(name: Seq<char>) -> Option<Provider> {
    if name == "finnhub"@ {
        Some(Provider::Finnhub)
    } else if name == "yahoo_finance"@ {
        Some(Provider::YahooFinance)
    } else if name == "polygon"@ {
        Some(Provider::Polygon)
    } else {
        None
    }
}

impl Provider {
    /// Reads a scraper provider from its configuration name; any other text
    /// is refused.
    pub fn from_name(s: &str) -> (provider: Result<Provider, ()>)
        ensures
            match spec_scraper_provider_named(s@) {
                Some(p) => provider == Ok::<Provider, ()>(p),
                None => provider is Err,
            },
    {
        if str_equals(s, "finnhub") {
            Ok(Provider::Finnhub)
        } else if str_equals(s, "yahoo_finance") {
            Ok(Provider::YahooFinance)
        } else if str_equals(s, "polygon") {
            Ok(Provider::Polygon)
        } else {
            Err(())
        }
    }
}

impl std::str::FromStr for Provider {
    type Err = ();

    /// Reads a provider from its configuration name, as `from_name` does.
    fn from_str(s: &str) -> (provider: Result<Provider, ()>)
        ensures
            match spec_scraper_provider_named(s@) {
                Some(p) => provider == Ok::<Provider, ()>(p),
                None => provider is Err,
            },
    {
        Provider::from_name(s)
    }
}

} // verus!
