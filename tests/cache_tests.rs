use karbige::cache::{build_tickers, FetchPlan, RawQuote, TickerCache};
use karbige::common::{ExchangeName, Ticker, PRICE_UNIT};
use karbige::errors::FetchError;
use karbige::korbit::Korbit;
use karbige::market::Market;
use karbige::upbit::{join_with_commas, Upbit};

fn raw(symbol: &str, price: Option<&str>) -> RawQuote {
    RawQuote { symbol: symbol.to_string(), price: price.map(|p| p.to_string()) }
}

#[test]
fn new_cache_is_empty_and_stale() {
    let c = TickerCache::new(1000);
    assert!(c.all_tickers.is_empty());
    assert_eq!(c.last_fetched, None);
    assert!(c.needs_refresh(i64::MIN));
}

#[test]
fn cache_is_fresh_within_period_and_stale_after() {
    let mut c = TickerCache::new(1000);
    c.apply_refresh(Some(vec![raw("KRW-BTC", Some("1"))]), 5000, ExchangeName::UPBIT);
    assert!(!c.needs_refresh(5000));
    assert!(!c.needs_refresh(6000));
    assert!(c.needs_refresh(6001));
}

#[test]
fn refresh_replaces_every_ticker() {
    let mut c = TickerCache::new(1000);
    c.apply_refresh(Some(vec![raw("KRW-BTC", Some("1")), raw("KRW-ETH", Some("2"))]), 0, ExchangeName::UPBIT);
    c.apply_refresh(Some(vec![raw("KRW-ETC", Some("3"))]), 2000, ExchangeName::UPBIT);
    assert_eq!(c.all_tickers, vec![Ticker { market: Market::KrwEtc, last: 3 * PRICE_UNIT }]);
    assert_eq!(c.last_fetched, Some(2000));
}

#[test]
fn malformed_response_leaves_cache_unchanged() {
    let mut k = Korbit::new();
    k.refresh_from_body_at(r#"{"btc_krw": {"last": 5}}"#, 100).unwrap();
    let before = k.ticker_cache().clone();
    assert_eq!(k.refresh_from_body_at("42", 5000), Ok(()));
    assert_eq!(k.refresh_from_body_at(r#""text""#, 5000), Ok(()));
    assert_eq!(k.ticker_cache().all_tickers, before.all_tickers);
    assert_eq!(k.ticker_cache().last_fetched, Some(100));

    let mut u = Upbit::new();
    assert_eq!(u.refresh_from_body_at(r#"{"a": 1}"#, 7), Ok(()));
    assert_eq!(u.ticker_cache().last_fetched, None);
}

#[test]
fn body_that_is_not_json_is_an_error() {
    let mut k = Korbit::new();
    assert!(matches!(k.refresh_from_body_at("{not json", 1), Err(FetchError::JSON(_))));
    assert_eq!(k.ticker_cache().last_fetched, None);
    assert!(matches!(Upbit::decode_market_list("[1,"), Err(FetchError::JSON(_))));
}

#[test]
fn unrecognized_symbol_is_dropped() {
    let q = vec![raw("KRW-BTC", Some("10")), raw("XX-YY", Some("20")), raw("KRW-ETH", None)];
    let t = build_tickers(&q, ExchangeName::UPBIT);
    assert_eq!(
        t,
        vec![
            Ticker { market: Market::KrwBtc, last: 10 * PRICE_UNIT },
            Ticker { market: Market::KrwEth, last: 0 },
        ]
    );

    let mut u = Upbit::new();
    u.refresh_from_body_at(
        r#"[{"market": "XX-YY", "trade_price": 1.5}, {"market": "KRW-ETC", "trade_price": "2.25"}]"#,
        3,
    )
    .unwrap();
    assert_eq!(u.cached_ticker(None), vec![Ticker { market: Market::KrwEtc, last: 225_000_000 }]);
}

#[test]
fn malformed_price_counts_as_zero() {
    let mut k = Korbit::new();
    k.refresh_from_body_at(r#"{"eth_krw": {"last": "n/a"}, "etc_krw": {"last": true}}"#, 1)
        .unwrap();
    assert_eq!(
        k.cached_ticker(None),
        vec![
            Ticker { market: Market::KrwEtc, last: 0 },
            Ticker { market: Market::KrwEth, last: 0 },
        ]
    );
}

#[test]
fn korbit_decodes_numbers_and_strings() {
    let q = Korbit::decode_tickers(r#"{"btc_krw": {"last": 96000000.5}, "x": {"last": "3"}}"#)
        .unwrap()
        .unwrap();
    assert_eq!(q.len(), 2);
    assert_eq!(q[0].symbol, "btc_krw");
    assert_eq!(q[0].price.as_deref(), Some("96000000.5"));
    assert_eq!(q[1].price.as_deref(), Some("3"));
    assert!(Korbit::decode_tickers("[1]").unwrap().is_none());
}

#[test]
fn get_ticker_filters_by_market() {
    let mut u = Upbit::new();
    u.refresh_from_body_at(
        r#"[{"market": "KRW-BTC", "trade_price": 1}, {"market": "KRW-ETH", "trade_price": 2}]"#,
        0,
    )
    .unwrap();
    assert_eq!(
        u.cached_ticker(Some(Market::KrwEth)),
        vec![Ticker { market: Market::KrwEth, last: 2 * PRICE_UNIT }]
    );
    assert!(u.cached_ticker(Some(Market::KrwEtc)).is_empty());
}

#[test]
fn upbit_market_list_is_joined_by_commas() {
    let body = r#"[{"market": "KRW-BTC"}, {"market": 3}, {"market": "BTC-ETH"}]"#;
    assert_eq!(Upbit::decode_market_list(body).unwrap(), "KRW-BTC,,BTC-ETH");
    assert_eq!(Upbit::decode_market_list("{}").unwrap(), "");
    assert_eq!(join_with_commas(&vec![]), "");
    assert_eq!(join_with_commas(&vec!["a".to_string()]), "a");
    let u = Upbit::new();
    assert_eq!(u.ticker_url("KRW-BTC,KRW-ETH"), "https://api.upbit.com/v1/ticker?markets=KRW-BTC,KRW-ETH");
}

#[test]
fn adapters_know_their_names() {
    assert_eq!(Korbit::new().get_name(), ExchangeName::KORBIT);
    assert_eq!(Upbit::new().get_name(), ExchangeName::UPBIT);
    assert_eq!(Korbit::new().ticker_cache().ticker_refresh_period, 1000);
}

#[test]
fn get_ticker_returns_only_the_first_match() {
    let mut u = Upbit::new();
    u.refresh_from_body_at(
        r#"[{"market": "KRW-BTC", "trade_price": 1}, {"market": "KRW-BTC", "trade_price": 2}]"#,
        0,
    )
    .unwrap();
    assert_eq!(u.cached_ticker(None).len(), 2);
    assert_eq!(
        u.cached_ticker(Some(Market::KrwBtc)),
        vec![Ticker { market: Market::KrwBtc, last: PRICE_UNIT }]
    );
}

#[test]
fn new_adapter_is_stale_on_the_clock() {
    let k = Korbit::new();
    let (stale, now) = k.is_stale();
    assert!(stale);
    assert!(now > 0);
    let mut u = Upbit::new();
    u.refresh_from_body_at("[]", now).unwrap();
    assert_eq!(u.ticker_cache().last_fetched, Some(now));
}

#[test]
fn market_symbol_that_is_no_string_drops_the_entry() {
    let mut u = Upbit::new();
    u.refresh_from_body_at(r#"[{"market": 5, "trade_price": 1}, {"trade_price": 2}]"#, 0).unwrap();
    assert!(u.cached_ticker(None).is_empty());
    assert_eq!(u.ticker_cache().last_fetched, Some(0));
}

#[test]
fn stale_fetch_refreshes_then_serves_or_passes_the_error_on() {
    let mut k = Korbit::new();
    let r = k.get_ticker(Some(Market::KrwEth), Err(FetchError::Network("down".to_string())), 10);
    assert_eq!(r, Err(FetchError::Network("down".to_string())));
    assert_eq!(k.ticker_cache().last_fetched, None);

    let r = k.get_ticker(Some(Market::KrwEth), Ok("not json".to_string()), 10);
    assert!(matches!(r, Err(FetchError::JSON(ref m)) if !m.is_empty()));
    assert_eq!(k.ticker_cache().last_fetched, None);

    let body = r#"{"eth_krw": {"last": "2.5"}, "btc_krw": {"last": 9}}"#.to_string();
    let r = k.get_ticker(Some(Market::KrwEth), Ok(body), 10);
    assert_eq!(r, Ok(vec![Ticker { market: Market::KrwEth, last: 250_000_000 }]));
    assert_eq!(k.ticker_cache().last_fetched, Some(10));
    assert!(!k.ticker_cache().needs_refresh(1010));
}

#[test]
fn exponent_prices_are_read() {
    let mut k = Korbit::new();
    k.refresh_from_body_at(r#"{"btc_krw": {"last": "1e5"}, "eth_krw": {"last": 1e3}}"#, 0).unwrap();
    assert_eq!(
        k.cached_ticker(None),
        vec![
            Ticker { market: Market::KrwBtc, last: 100_000 * PRICE_UNIT },
            Ticker { market: Market::KrwEth, last: 1_000 * PRICE_UNIT },
        ]
    );
}

#[test]
fn plan_serves_a_fresh_cache_and_refreshes_a_stale_one() {
    let mut c = TickerCache::new(1000);
    assert!(matches!(c.plan(None, 0), FetchPlan::Refresh));
    c.apply_refresh(Some(vec![raw("KRW-BTC", Some("4"))]), 100, ExchangeName::UPBIT);
    match c.plan(Some(Market::KrwBtc), 1100) {
        FetchPlan::Serve(t) => assert_eq!(t, vec![Ticker { market: Market::KrwBtc, last: 4 * PRICE_UNIT }]),
        FetchPlan::Refresh => panic!("a fresh cache is served"),
    }
    assert!(matches!(c.plan(Some(Market::KrwBtc), 1101), FetchPlan::Refresh));
    let k = Korbit::new();
    assert!(matches!(k.plan_fetch(None).0, FetchPlan::Refresh));
}

#[test]
fn refresh_and_serve_passes_errors_on_and_serves_after_refresh() {
    let mut c = TickerCache::new(1000);
    let r = c.refresh_and_serve(None, Err(FetchError::Network("down".to_string())), 5, ExchangeName::KORBIT);
    assert_eq!(r, Err(FetchError::Network("down".to_string())));
    assert_eq!(c.last_fetched, None);
    let r = c.refresh_and_serve(None, Ok(None), 5, ExchangeName::KORBIT);
    assert_eq!(r, Ok(vec![]));
    assert_eq!(c.last_fetched, None);
    let q = vec![raw("etc_krw", Some("7")), raw("etc_krw", Some("8"))];
    let r = c.refresh_and_serve(Some(Market::KrwEtc), Ok(Some(q)), 5, ExchangeName::KORBIT);
    assert_eq!(r, Ok(vec![Ticker { market: Market::KrwEtc, last: 7 * PRICE_UNIT }]));
    assert_eq!(c.all_tickers.len(), 2);
    assert_eq!(c.last_fetched, Some(5));
}
