use crate::market::Market;
use vstd::prelude::*;

verus! {

/// The exchanges that the library knows.
#[derive(PartialEq, Eq, Structural, Clone, Copy, Debug)]
pub enum ExchangeName {
    KORBIT,
    UPBIT,
}

/// Number of decimal places kept in a price: a `last` of `PRICE_UNIT` is one KRW.
pub const PRICE_UNIT: u64 = 100_000_000;

/// The last trade price of one market on one exchange, in units of
/// `1 / PRICE_UNIT` KRW.
#[derive(PartialEq, Eq, Structural, Clone, Copy, Debug)]
pub struct Ticker {
    pub market: Market,
    pub last: u64,
}

} // verus!
