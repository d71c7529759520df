use crate::common::ExchangeName;
use crate::errors::PairParsingError;
use crate::market::Market;
use vstd::prelude::*;

verus! {

/// The symbol under which exchange `ex` lists market `m`.
pub open spec fn native_symbol(m: Market, ex: ExchangeName) -> Seq<char> {
    match ex {
        ExchangeName::KORBIT => match m {
            Market::KrwBtc => "btc_krw"@,
            Market::KrwEth => "eth_krw"@,
            Market::KrwEtc => "etc_krw"@,
        },
        ExchangeName::UPBIT => match m {
            Market::KrwBtc => "KRW-BTC"@,
            Market::KrwEth => "KRW-ETH"@,
            Market::KrwEtc => "KRW-ETC"@,
        },
    }
}

/// The market that exchange `ex` lists under symbol `s`, if any.
pub open spec fn market_of(s: Seq<char>, ex: ExchangeName) -> Option<Market> {
    if s == native_symbol(Market::KrwBtc, ex) {
        Some(Market::KrwBtc)
    } else if s == native_symbol(Market::KrwEth, ex) {
        Some(Market::KrwEth)
    } else if s == native_symbol(Market::KrwEtc, ex) {
        Some(Market::KrwEtc)
    } else {
        None
    }
}

/// Every market of the catalog, in catalog order.
pub open spec fn all_markets() -> Seq<Market> {
    seq![Market::KrwBtc, Market::KrwEth, Market::KrwEtc]
}

fn native_str(m: Market, ex: ExchangeName) -> (r: &'static str)
    ensures
        r@ == native_symbol(m, ex),
{
    match ex {
        ExchangeName::KORBIT => match m {
            Market::KrwBtc => "btc_krw",
            Market::KrwEth => "eth_krw",
            Market::KrwEtc => "etc_krw",
        },
        ExchangeName::UPBIT => match m {
            Market::KrwBtc => "KRW-BTC",
            Market::KrwEth => "KRW-ETH",
            Market::KrwEtc => "KRW-ETC",
        },
    }
}

/// Whether two strings hold the same characters.
pub(crate) fn same_text(a: &str, b: &str) -> (r: bool)
    ensures
        r == (a@ == b@),
{
    let x = a.to_owned();
    let y = b.to_owned();
    x == y
}

/// Converts an exchange's native symbol into a market of the catalog.
pub fn parse_market_string(market_string: &str, ex: ExchangeName) -> (r: Result<
    Market,
    PairParsingError,
>)
    ensures
        match market_of(market_string@, ex) {
            Some(m) => r == Ok::<Market, PairParsingError>(m),
            None => r == Err::<Market, PairParsingError>(PairParsingError),
        },
{
    let markets = vec![Market::KrwBtc, Market::KrwEth, Market::KrwEtc];
    assert(markets@ == all_markets());
    let mut i: usize = 0;
    while i < markets.len()
        invariant
            markets@ == all_markets(),
            0 <= i <= markets@.len(),
            forall|j: int| 0 <= j < i ==> native_symbol(#[trigger] markets@[j], ex) != market_string@,
        decreases markets@.len() - i,
    {
        let m = markets[i];
        if same_text(native_str(m, ex), market_string) {
            proof {
                lemma_symbols_distinct(ex);
            }
            return Ok(m);
        }
        i = i + 1;
    }
    Err(PairParsingError)
}

/// Converts a market of the catalog into the symbol exchange `ex` lists it under.
pub fn get_market_string(market: Market, ex: ExchangeName) -> (r: Result<String, PairParsingError>)
    ensures
        r is Ok,
        r->Ok_0@ == native_symbol(market, ex),
{
    let markets = vec![Market::KrwBtc, Market::KrwEth, Market::KrwEtc];
    assert(markets@ == all_markets());
    let mut i: usize = 0;
    while i < markets.len()
        invariant
            markets@ == all_markets(),
            0 <= i <= markets@.len(),
            forall|j: int| 0 <= j < i ==> #[trigger] markets@[j] != market,
        decreases markets@.len() - i,
    {
        let m = markets[i];
        if m == market {
            return Ok(String::from_str(native_str(m, ex)));
        }
        i = i + 1;
    }
    assert(markets@[0] != market && markets@[1] != market && markets@[2] != market);
    Err(PairParsingError)
}

/// Within one exchange's table, distinct markets have distinct symbols.
pub proof fn lemma_symbols_distinct(ex: ExchangeName)
    ensures
        forall|a: Market, b: Market|
            native_symbol(a, ex) == native_symbol(b, ex) ==> a == b,
{
    reveal_strlit("btc_krw");
    reveal_strlit("eth_krw");
    reveal_strlit("etc_krw");
    reveal_strlit("KRW-BTC");
    reveal_strlit("KRW-ETH");
    reveal_strlit("KRW-ETC");
    assert forall|a: Market, b: Market|
        native_symbol(a, ex) == native_symbol(b, ex) implies a == b by {
        if a != b {
            assert(native_symbol(a, ex)[0] != native_symbol(b, ex)[0]
                || native_symbol(a, ex)[2] != native_symbol(b, ex)[2]
                || native_symbol(a, ex)[4] != native_symbol(b, ex)[4]
                || native_symbol(a, ex)[6] != native_symbol(b, ex)[6]);
        }
    }
}

/// Converting a market to its native symbol and back gives the market.
pub proof fn lemma_market_round_trip(m: Market, ex: ExchangeName)
    ensures
        market_of(native_symbol(m, ex), ex) == Some(m),
{
    lemma_symbols_distinct(ex);
}

/// Converting a recognised native symbol to its market and back gives the symbol.
pub proof fn lemma_symbol_round_trip(s: Seq<char>, ex: ExchangeName)
    requires
        market_of(s, ex) is Some,
    ensures
        native_symbol(market_of(s, ex)->Some_0, ex) == s,
{
}

} // verus!
