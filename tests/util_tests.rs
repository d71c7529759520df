use karbige::common::ExchangeName;
use karbige::errors::PairParsingError;
use karbige::market::Market;
use karbige::util::{get_market_string, parse_market_string};

#[test]
fn upbit_market_str_conversion() {
    let market = parse_market_string("KRW-BTC", ExchangeName::UPBIT).unwrap();
    assert_eq!(market, Market::KrwBtc);

    let market_str = get_market_string(Market::KrwBtc, ExchangeName::UPBIT).unwrap();
    assert_eq!(market_str, "KRW-BTC");
}

#[test]
fn korbit_market_str_conversion() {
    let market = parse_market_string("btc_krw", ExchangeName::KORBIT).unwrap();
    assert_eq!(market, Market::KrwBtc);

    let market_str = get_market_string(Market::KrwBtc, ExchangeName::KORBIT).unwrap();
    assert_eq!(market_str, "btc_krw");
}

#[test]
fn unknown_symbol_is_a_parsing_error() {
    assert_eq!(parse_market_string("XX-YY", ExchangeName::UPBIT), Err(PairParsingError));
    assert_eq!(parse_market_string("KRW-BTC", ExchangeName::KORBIT), Err(PairParsingError));
    assert_eq!(parse_market_string("", ExchangeName::KORBIT), Err(PairParsingError));
}

#[test]
fn every_market_round_trips_on_both_exchanges() {
    let markets = [Market::KrwBtc, Market::KrwEth, Market::KrwEtc];
    for ex in [ExchangeName::KORBIT, ExchangeName::UPBIT] {
        for m in markets {
            let s = get_market_string(m, ex).unwrap();
            assert_eq!(parse_market_string(&s, ex), Ok(m));
        }
    }
    assert_eq!(get_market_string(Market::KrwEtc, ExchangeName::UPBIT).unwrap(), "KRW-ETC");
    assert_eq!(get_market_string(Market::KrwEth, ExchangeName::KORBIT).unwrap(), "eth_krw");
}

#[test]
fn parsing_error_has_a_message() {
    assert_eq!(
        PairParsingError.message(),
        "Error in converting currency string to enum, or vice versa"
    );
}
