use karbige::common::{ExchangeName, Ticker};
use karbige::comparer::{
    compare_market, compare_pair, first_quote, Arbitrage, Comparer, ComparerConfig, Ratio, TickerWithName,
};
use karbige::korbit::Korbit;
use karbige::market::Market;
use karbige::upbit::Upbit;

fn quote(name: ExchangeName, last: u64) -> TickerWithName {
    TickerWithName { ticker: Ticker { market: Market::KrwBtc, last }, name }
}

fn one_percent() -> Ratio {
    Ratio { numer: 1, denom: 100 }
}

#[test]
fn gap_above_margin_signals_from_lower_to_higher() {
    let r = compare_pair(quote(ExchangeName::UPBIT, 102), quote(ExchangeName::KORBIT, 100), one_percent());
    assert_eq!(
        r,
        Some(Arbitrage {
            from: ExchangeName::KORBIT,
            to: ExchangeName::UPBIT,
            percent_diff: Ratio { numer: 2, denom: 100 },
        })
    );
}

#[test]
fn gap_equal_to_margin_is_no_signal() {
    let r = compare_pair(quote(ExchangeName::KORBIT, 100), quote(ExchangeName::UPBIT, 101), one_percent());
    assert_eq!(r, None);
}

#[test]
fn equal_prices_never_signal() {
    let zero = Ratio { numer: 0, denom: 1 };
    assert_eq!(compare_pair(quote(ExchangeName::KORBIT, 5), quote(ExchangeName::UPBIT, 5), zero), None);
    let q = vec![quote(ExchangeName::KORBIT, 7), quote(ExchangeName::UPBIT, 7)];
    assert!(compare_market(&q, zero).is_empty());
}

#[test]
fn market_pairs_come_in_configuration_order() {
    let q = vec![
        quote(ExchangeName::KORBIT, 100),
        quote(ExchangeName::UPBIT, 110),
        quote(ExchangeName::KORBIT, 120),
    ];
    let r = compare_market(&q, one_percent());
    assert_eq!(r.len(), 3);
    assert_eq!(r[0].percent_diff, Ratio { numer: 10, denom: 100 });
    assert_eq!(r[1].percent_diff, Ratio { numer: 20, denom: 100 });
    assert_eq!(r[2].percent_diff, Ratio { numer: 10, denom: 110 });
    assert_eq!(r[2].from, ExchangeName::UPBIT);
}

fn scenario(upbit_price: &str) -> Vec<Arbitrage> {
    let mut korbit = Korbit::new();
    korbit
        .refresh_from_body_at(r#"{"btc_krw": {"last": "100"}}"#, 0)
        .unwrap();
    let mut upbit = Upbit::new();
    let body = format!(r#"[{{"market": "KRW-BTC", "trade_price": {}}}]"#, upbit_price);
    upbit.refresh_from_body_at(&body, 0).unwrap();

    let mut quotes = vec![];
    for (name, tickers) in [
        (korbit.get_name(), korbit.cached_ticker(Some(Market::KrwBtc))),
        (upbit.get_name(), upbit.cached_ticker(Some(Market::KrwBtc))),
    ] {
        if let Some(q) = first_quote(name, &tickers) {
            quotes.push(q);
        }
    }
    let comparer = Comparer::new(ComparerConfig { percent_diff_margin: one_percent() });
    comparer.compare(vec![quotes])
}

#[test]
fn two_exchanges_two_percent_apart_give_one_arbitrage() {
    let r = scenario("102");
    assert_eq!(r.len(), 1);
    assert_eq!(r[0].from, ExchangeName::KORBIT);
    assert_eq!(r[0].to, ExchangeName::UPBIT);
    assert_eq!(
        r[0].percent_diff,
        Ratio { numer: 2 * karbige::common::PRICE_UNIT, denom: 100 * karbige::common::PRICE_UNIT }
    );
}

#[test]
fn two_exchanges_within_margin_give_nothing() {
    assert!(scenario("100.5").is_empty());
}

#[test]
fn markets_come_in_the_order_asked() {
    let comparer = Comparer::new(ComparerConfig { percent_diff_margin: one_percent() });
    let first = vec![quote(ExchangeName::KORBIT, 100), quote(ExchangeName::UPBIT, 200)];
    let second = vec![quote(ExchangeName::KORBIT, 300), quote(ExchangeName::UPBIT, 100)];
    let lone = vec![quote(ExchangeName::UPBIT, 1)];
    let r = comparer.compare(vec![first, lone, second]);
    assert_eq!(r.len(), 2);
    assert_eq!(r[0].to, ExchangeName::UPBIT);
    assert_eq!(r[1].to, ExchangeName::KORBIT);
}

#[test]
fn exchange_without_ticker_gives_no_quote() {
    assert_eq!(first_quote(ExchangeName::KORBIT, &vec![]), None);
    let t = Ticker { market: Market::KrwEth, last: 9 };
    assert_eq!(
        first_quote(ExchangeName::UPBIT, &vec![t, Ticker { market: Market::KrwEth, last: 1 }]),
        Some(TickerWithName { ticker: t, name: ExchangeName::UPBIT })
    );
}
