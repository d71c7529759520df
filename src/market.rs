use vstd::prelude::*;

verus! {

/// A trading pair shared by every exchange.
#[derive(PartialEq, Eq, Structural, Clone, Copy, Debug)]
pub enum Market {
    KrwBtc,
    KrwEth,
    KrwEtc,
}

} // verus!
