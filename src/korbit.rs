use crate::cache::{
    is_stale, served, FetchPlan, tickers_of, RawQuote, TickerCache, TICKER_REFRESH_PERIOD,
};
use crate::clock::now_millis;
use crate::common::{ExchangeName, Ticker};
use crate::errors::FetchError;
use crate::json::{decode_keyed_quotes, json_of, keyed_entries, Json};
use crate::market::Market;
use vstd::prelude::*;

verus! {

/// The Korbit exchange: its cache of tickers. Its ticker endpoint answers
/// with an object that maps each native symbol to its ticker, with the price
/// under `last`.
pub struct Korbit {
    cache: TickerCache,
}

impl Korbit {
    /// The cache of tickers.
    pub closed spec fn cache(&self) -> TickerCache {
        self.cache
    }

    pub fn new() -> (r: Korbit)
        ensures
            r.cache().ticker_refresh_period == TICKER_REFRESH_PERIOD,
            r.cache().all_tickers@.len() == 0,
            r.cache().last_fetched is None,
    {
        Korbit { cache: TickerCache::new(TICKER_REFRESH_PERIOD) }
    }

    pub fn get_name(&self) -> (r: ExchangeName)
        ensures
            r == ExchangeName::KORBIT,
    {
        ExchangeName::KORBIT
    }

    /// The cache of tickers.
    pub fn ticker_cache(&self) -> (r: &TickerCache)
        ensures
            *r == self.cache(),
    {
        &self.cache
    }

    /// Where the tickers of every market are fetched from.
    pub fn tickers_url(&self) -> (r: &'static str)
        ensures
            r@ == "https://api.korbit.co.kr/v1/ticker/detailed/all"@,
    {
        "https://api.korbit.co.kr/v1/ticker/detailed/all"
    }

    /// Decodes a body of the ticker endpoint. Text that is not JSON is an
    /// error; JSON that is no object gives `None`.
    pub fn decode_tickers(body: &str) -> (r: Result<Option<Vec<RawQuote>>, FetchError>)
        ensures
            match json_of(body@) {
                None => r is Err && r->Err_0 is JSON,
                Some(Json::Object(f)) => r is Ok && r->Ok_0 is Some && r->Ok_0->Some_0@.map_values(
                    |x: RawQuote| x@,
                ) == keyed_entries(f@, "last"@),
                Some(_) => r == Ok::<Option<Vec<RawQuote>>, FetchError>(None),
            },
    {
        decode_keyed_quotes(body, "last")
    }

    /// Reads the clock: whether the cache must be refreshed before it is
    /// served now, and the time read.
    pub fn is_stale(&self) -> (r: (bool, i64))
        ensures
            r.0 == is_stale(self.cache().last_fetched, self.cache().ticker_refresh_period, r.1),
            self.cache().last_fetched is None ==> r.0,
    {
        let now = now_millis();
        (self.cache.needs_refresh(now), now)
    }

    /// Reads the clock and decides a fetch call: a stale cache is refreshed,
    /// by one fetch and then `get_ticker`; a fresh one is served as it is,
    /// without a fetch. Also gives the time read.
    pub fn plan_fetch(&self, market: Option<Market>) -> (r: (FetchPlan, i64))
        ensures
            (r.0 is Refresh) == is_stale(
                self.cache().last_fetched,
                self.cache().ticker_refresh_period,
                r.1,
            ),
            r.0 is Serve ==> r.0->Serve_0@ == served(self.cache().all_tickers@, market),
    {
        let now = now_millis();
        (self.cache.plan(market, now), now)
    }

    /// Refreshes the cache from a body of the ticker endpoint fetched at `now`.
    /// A body that is not JSON is an error, and JSON that is no object is
    /// ignored: both leave the cache as it was. Otherwise every cached ticker
    /// is replaced by those the body yields, and `now` is recorded.
    pub fn refresh_from_body_at(&mut self, body: &str, now: i64) -> (r: Result<(), FetchError>)
        ensures
            final(self).cache().ticker_refresh_period == old(self).cache().ticker_refresh_period,
            (json_of(body@) is None) == (r is Err),
            r is Err ==> r->Err_0 is JSON,
            match json_of(body@) {
                Some(Json::Object(f)) => final(self).cache().all_tickers@ == tickers_of(
                    keyed_entries(f@, "last"@),
                    ExchangeName::KORBIT,
                ) && final(self).cache().last_fetched == Some(now),
                _ => final(self).cache() == old(self).cache(),
            },
    {
        let decoded = Korbit::decode_tickers(body)?;
        self.cache.apply_refresh(decoded, now, ExchangeName::KORBIT);
        Ok(())
    }

    /// Serves the cache without a refresh: the first cached ticker of
    /// `market`, or all of them where `market` is `None`.
    pub fn cached_ticker(&self, market: Option<Market>) -> (r: Vec<Ticker>)
        ensures
            r@ == served(self.cache().all_tickers@, market),
            market is Some ==> r@.len() <= 1,
            market is Some ==> forall|i: int| 0 <= i < r@.len() ==> #[trigger] r@[i].market
                == market->Some_0,
    {
        self.cache.get_ticker(market)
    }

    /// A fetch call that found the cache stale at `now`, given what was then
    /// fetched: the body, or the transport error. The error, or a body that
    /// is not JSON, reaches the caller and leaves the cache as it was;
    /// otherwise the cache is refreshed from the body and then served.
    pub fn get_ticker(
        &mut self,
        market: Option<Market>,
        fetched: Result<String, FetchError>,
        now: i64,
    ) -> (r: Result<Vec<Ticker>, FetchError>)
        ensures
            final(self).cache().ticker_refresh_period == old(self).cache().ticker_refresh_period,
            fetched is Err ==> r == Err::<Vec<Ticker>, FetchError>(fetched->Err_0)
                && final(self).cache() == old(self).cache(),
            fetched is Ok ==> ((json_of(fetched->Ok_0@) is None) == (r is Err)),
            fetched is Ok && r is Err ==> r->Err_0 is JSON,
            fetched is Ok ==> match json_of(fetched->Ok_0@) {
                Some(Json::Object(f)) => final(self).cache().all_tickers@ == tickers_of(
                    keyed_entries(f@, "last"@),
                    ExchangeName::KORBIT,
                ) && final(self).cache().last_fetched == Some(now),
                _ => final(self).cache() == old(self).cache(),
            },
            r is Ok ==> r->Ok_0@ == served(final(self).cache().all_tickers@, market),
    {
        let decoded = match fetched {
            Ok(body) => Korbit::decode_tickers(body.as_str()),
            Err(e) => Err(e),
        };
        self.cache.refresh_and_serve(market, decoded, now, ExchangeName::KORBIT)
    }
}

} // verus!
