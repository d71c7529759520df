//! Karbige: detects arbitrage opportunities between Korean crypto exchanges.
//!
//! The library holds the market catalog with each exchange's symbol table,
//! the per-exchange ticker cache with its refresh rule, the decoding of the
//! exchanges' ticker responses, and the pairwise price comparison.
//! Network transport lives outside the library: callers hand it response
//! bodies and the current time.

pub mod cache;
mod clock;
pub mod common;
pub mod comparer;
pub mod errors;
pub mod json;
pub mod korbit;
pub mod market;
pub mod price;
pub mod upbit;
pub mod util;
