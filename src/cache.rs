use crate::common::{ExchangeName, Ticker};
use crate::errors::FetchError;
use crate::market::Market;
use crate::price::{price_or_zero, price_or_zero_of, text_view};
use crate::util::{market_of, parse_market_string};
use vstd::prelude::*;

verus! {

/// Milliseconds for which an exchange's tickers are served from its cache.
pub const TICKER_REFRESH_PERIOD: u64 = 1000;

/// What a response entry says: its native symbol, and the text of its price
/// if it has one.
pub type QuoteView = (Seq<char>, Option<Seq<char>>);

/// One entry of an exchange's ticker response: the native symbol and the
/// text of its price, `None` where the price field is missing or is neither
/// a number nor a string.
#[derive(Clone, Debug)]
pub struct RawQuote {
    pub symbol: String,
    pub price: Option<String>,
}

impl View for RawQuote {
    type V = QuoteView;

    open spec fn view(&self) -> QuoteView {
        (self.symbol@, text_view(self.price))
    }
}

pub open spec fn quote_views(q: Seq<RawQuote>) -> Seq<QuoteView> {
    q.map_values(|x: RawQuote| x@)
}

/// The tickers that a response yields on exchange `ex`, in response order:
/// one per entry whose symbol the exchange's table holds, with a missing or
/// unreadable price as zero; the other entries are dropped.
pub open spec fn tickers_of(q: Seq<QuoteView>, ex: ExchangeName) -> Seq<Ticker>
    decreases q.len(),
{
    if q.len() == 0 {
        Seq::empty()
    } else {
        let rest = tickers_of(q.drop_last(), ex);
        match market_of(q.last().0, ex) {
            Some(m) => rest.push(Ticker { market: m, last: price_or_zero_of(q.last().1) }),
            None => rest,
        }
    }
}

/// The first ticker of `s` for market `m`, if any.
pub open spec fn first_ticker(s: Seq<Ticker>, m: Market) -> Option<Ticker>
    decreases s.len(),
{
    if s.len() == 0 {
        None
    } else if s[0].market == m {
        Some(s[0])
    } else {
        first_ticker(s.drop_first(), m)
    }
}

/// What a fetch call serves from cached tickers `all`: the first ticker of
/// `market`, or all of them where `market` is `None`.
pub open spec fn served(all: Seq<Ticker>, market: Option<Market>) -> Seq<Ticker> {
    match market {
        None => all,
        Some(m) => match first_ticker(all, m) {
            Some(t) => seq![t],
            None => Seq::empty(),
        },
    }
}

/// Whether a cache last refreshed at `last` (never, if `None`) is stale at
/// `now`: more than `period` milliseconds have passed.
pub open spec fn is_stale(last: Option<i64>, period: u64, now: i64) -> bool {
    match last {
        Some(t) => now - t > period,
        None => true,
    }
}

/// What a fetch call does next: serve these tickers from the cache, or fetch
/// once and refresh.
#[derive(Debug)]
pub enum FetchPlan {
    Serve(Vec<Ticker>),
    Refresh,
}

/// The tickers of an exchange, as last fetched, and when that was.
#[derive(Clone, Debug)]
pub struct TickerCache {
    /// Milliseconds for which fetched tickers are served without a refresh.
    pub ticker_refresh_period: u64,
    pub all_tickers: Vec<Ticker>,
    /// Milliseconds since the Unix epoch at the last refresh; `None` before the first.
    pub last_fetched: Option<i64>,
}

/// The tickers that a response yields on exchange `ex`.
pub fn build_tickers(quotes: &Vec<RawQuote>, ex: ExchangeName) -> (r: Vec<Ticker>)
    ensures
        r@ == tickers_of(quote_views(quotes@), ex),
{
    let mut res: Vec<Ticker> = Vec::new();
    let mut i: usize = 0;
    while i < quotes.len()
        invariant
            0 <= i <= quotes@.len(),
            res@ == tickers_of(quote_views(quotes@.take(i as int)), ex),
        decreases quotes@.len() - i,
    {
        let q = &quotes[i];
        assert(quote_views(quotes@.take(i + 1)).drop_last() =~= quote_views(quotes@.take(i as int)));
        assert(quote_views(quotes@.take(i + 1)).last() == q@);
        match parse_market_string(q.symbol.as_str(), ex) {
            Ok(m) => {
                res.push(Ticker { market: m, last: price_or_zero(&q.price) });
            },
            Err(_) => {},
        }
        i = i + 1;
    }
    assert(quotes@.take(quotes@.len() as int) =~= quotes@);
    res
}

impl TickerCache {
    /// An empty cache that has never been refreshed.
    pub fn new(ticker_refresh_period: u64) -> (r: TickerCache)
        ensures
            r.ticker_refresh_period == ticker_refresh_period,
            r.all_tickers@.len() == 0,
            r.last_fetched is None,
    {
        TickerCache { ticker_refresh_period, all_tickers: Vec::new(), last_fetched: None }
    }

    /// Whether the cache must be refreshed before it is served at `now`.
    pub fn needs_refresh(&self, now: i64) -> (r: bool)
        ensures
            r == is_stale(self.last_fetched, self.ticker_refresh_period, now),
    {
        match self.last_fetched {
            Some(t) => (now as i128) - (t as i128) > (self.ticker_refresh_period as i128),
            None => true,
        }
    }

    /// What a fetch call at `now` does: a stale cache is refreshed, and a
    /// fresh one is served as it is.
    pub fn plan(&self, market: Option<Market>, now: i64) -> (r: FetchPlan)
        ensures
            (r is Refresh) == is_stale(self.last_fetched, self.ticker_refresh_period, now),
            r is Serve ==> r->Serve_0@ == served(self.all_tickers@, market),
    {
        if self.needs_refresh(now) {
            FetchPlan::Refresh
        } else {
            FetchPlan::Serve(self.get_ticker(market))
        }
    }

    /// Takes in a response of exchange `ex` decoded and fetched at `now`. A
    /// response of the wrong shape (`None`) leaves the cache as it was; any
    /// other replaces every cached ticker and records `now`.
    pub fn apply_refresh(&mut self, quotes: Option<Vec<RawQuote>>, now: i64, ex: ExchangeName)
        ensures
            quotes is None ==> *final(self) == *old(self),
            quotes is Some ==> final(self).all_tickers@ == tickers_of(
                quote_views(quotes->Some_0@),
                ex,
            ) && final(self).last_fetched == Some(now),
            final(self).ticker_refresh_period == old(self).ticker_refresh_period,
    {
        match quotes {
            Some(q) => {
                self.all_tickers = build_tickers(&q, ex);
                self.last_fetched = Some(now);
            },
            None => {},
        }
    }

    /// Ends a fetch call of exchange `ex` that found the cache stale at `now`,
    /// given the decoded response or the error met on the way. The error
    /// reaches the caller and leaves the cache as it was; otherwise the
    /// response is taken in as `apply_refresh` does, and the cache is served.
    pub fn refresh_and_serve(
        &mut self,
        market: Option<Market>,
        decoded: Result<Option<Vec<RawQuote>>, FetchError>,
        now: i64,
        ex: ExchangeName,
    ) -> (r: Result<Vec<Ticker>, FetchError>)
        ensures
            final(self).ticker_refresh_period == old(self).ticker_refresh_period,
            decoded is Err ==> r == Err::<Vec<Ticker>, FetchError>(decoded->Err_0) && *final(self)
                == *old(self),
            decoded is Ok && decoded->Ok_0 is None ==> *final(self) == *old(self),
            decoded is Ok && decoded->Ok_0 is Some ==> final(self).all_tickers@ == tickers_of(
                quote_views(decoded->Ok_0->Some_0@),
                ex,
            ) && final(self).last_fetched == Some(now),
            decoded is Ok ==> r is Ok && r->Ok_0@ == served(final(self).all_tickers@, market),
    {
        match decoded {
            Ok(q) => {
                self.apply_refresh(q, now, ex);
                Ok(self.get_ticker(market))
            },
            Err(e) => Err(e),
        }
    }

    /// The first cached ticker of `market`, or all of them where `market`
    /// is `None`.
    pub fn get_ticker(&self, market: Option<Market>) -> (r: Vec<Ticker>)
        ensures
            r@ == served(self.all_tickers@, market),
            market is Some ==> r@.len() <= 1,
            market is Some ==> forall|i: int| 0 <= i < r@.len() ==> #[trigger] r@[i].market
                == market->Some_0,
    {
        match market {
            None => self.all_tickers.clone(),
            Some(m) => {
                let mut res: Vec<Ticker> = Vec::new();
                let mut i: usize = 0;
                assert(self.all_tickers@.skip(0) =~= self.all_tickers@);
                while i < self.all_tickers.len()
                    invariant
                        market == Some(m),
                        0 <= i <= self.all_tickers@.len(),
                        first_ticker(self.all_tickers@, m) == first_ticker(
                            self.all_tickers@.skip(i as int),
                            m,
                        ),
                        res@.len() == 0,
                    decreases self.all_tickers@.len() - i,
                {
                    let t = self.all_tickers[i];
                    assert(self.all_tickers@.skip(i as int)[0] == t);
                    if t.market == m {
                        res.push(t);
                        assert(res@ =~= seq![t]);
                        return res;
                    }
                    assert(self.all_tickers@.skip(i as int).drop_first() =~= self.all_tickers@.skip(
                        i + 1,
                    ));
                    i = i + 1;
                }
                assert(self.all_tickers@.skip(i as int).len() == 0);
                assert(res@ =~= Seq::<Ticker>::empty());
                res
            },
        }
    }
}

/// The tickers of two responses laid end to end are those of each, in turn.
pub proof fn lemma_tickers_of_concat(a: Seq<QuoteView>, b: Seq<QuoteView>, ex: ExchangeName)
    ensures
        tickers_of(a + b, ex) == tickers_of(a, ex) + tickers_of(b, ex),
    decreases b.len(),
{
    if b.len() == 0 {
        assert(a + b =~= a);
        assert(tickers_of(b, ex) =~= Seq::<Ticker>::empty());
        assert(tickers_of(a, ex) + tickers_of(b, ex) =~= tickers_of(a, ex));
    } else {
        assert((a + b).drop_last() =~= a + b.drop_last());
        lemma_tickers_of_concat(a, b.drop_last(), ex);
        match market_of(b.last().0, ex) {
            Some(m) => {
                let t = Ticker { market: m, last: price_or_zero_of(b.last().1) };
                assert(tickers_of(a, ex) + tickers_of(b.drop_last(), ex).push(t) =~= (tickers_of(
                    a,
                    ex,
                ) + tickers_of(b.drop_last(), ex)).push(t));
            },
            None => {},
        }
    }
}

/// An entry whose symbol the exchange's table does not hold adds no ticker,
/// wherever it stands in a response.
pub proof fn lemma_unrecognized_symbol_dropped(
    before: Seq<QuoteView>,
    entry: QuoteView,
    after: Seq<QuoteView>,
    ex: ExchangeName,
)
    requires
        market_of(entry.0, ex) is None,
    ensures
        tickers_of(before + seq![entry] + after, ex) == tickers_of(before + after, ex),
{
    lemma_tickers_of_concat(before + seq![entry], after, ex);
    lemma_tickers_of_concat(before, seq![entry], ex);
    lemma_tickers_of_concat(before, after, ex);
    assert(seq![entry].drop_last() =~= Seq::<QuoteView>::empty());
    assert(seq![entry].last() == entry);
    assert(tickers_of(Seq::<QuoteView>::empty(), ex) =~= Seq::<Ticker>::empty());
    assert(tickers_of(seq![entry], ex) =~= Seq::<Ticker>::empty());
    assert(tickers_of(before, ex) + tickers_of(seq![entry], ex) =~= tickers_of(before, ex));
}

/// Every ticker that a response yields is the market its symbol names on the
/// exchange, with the entry's price.
pub proof fn lemma_tickers_come_from_entries(q: Seq<QuoteView>, ex: ExchangeName, k: int)
    requires
        0 <= k < tickers_of(q, ex).len(),
    ensures
        exists|j: int|
            0 <= j < q.len() && market_of(#[trigger] q[j].0, ex) == Some(
                tickers_of(q, ex)[k].market,
            ) && tickers_of(q, ex)[k].last == price_or_zero_of(q[j].1),
    decreases q.len(),
{
    let rest = tickers_of(q.drop_last(), ex);
    if k < rest.len() {
        lemma_tickers_come_from_entries(q.drop_last(), ex, k);
        let j = choose|j: int|
            0 <= j < q.drop_last().len() && market_of(#[trigger] q.drop_last()[j].0, ex) == Some(
                rest[k].market,
            ) && rest[k].last == price_or_zero_of(q.drop_last()[j].1);
        assert(q[j] == q.drop_last()[j]);
    } else {
        assert(q[q.len() - 1] == q.last());
    }
}

/// A cache refreshed at `t` is served without a refresh until more than its
/// refresh period has passed.
pub proof fn lemma_fresh_within_period(c: TickerCache, t: i64, now: i64)
    requires
        c.last_fetched == Some(t),
        now - t <= c.ticker_refresh_period,
    ensures
        !is_stale(c.last_fetched, c.ticker_refresh_period, now),
{
}

/// A cache is refreshed once more than its refresh period has passed since
/// its last refresh, and always before its first.
pub proof fn lemma_stale_after_period(c: TickerCache, now: i64)
    requires
        c.last_fetched is None || now - c.last_fetched->Some_0 > c.ticker_refresh_period,
    ensures
        is_stale(c.last_fetched, c.ticker_refresh_period, now),
{
}

} // verus!
