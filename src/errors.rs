use vstd::prelude::*;

verus! {

/// A symbol that an exchange's table does not hold, or a market that it
/// does not list.
#[derive(PartialEq, Eq, Structural, Clone, Copy, Debug)]
pub struct PairParsingError;

impl PairParsingError {
    /// The message that describes this error.
    pub fn message(&self) -> (r: String)
        ensures
            r@ == "Error in converting currency string to enum, or vice versa"@,
    {
        String::from_str("Error in converting currency string to enum, or vice versa")
    }
}

/// Why fetching tickers from an exchange failed, with what the cause said.
#[derive(PartialEq, Eq, Clone, Debug)]
pub enum FetchError {
    /// The exchange could not be reached.
    Network(String),
    /// The response body is not JSON.
    JSON(String),
    /// A symbol could not be converted.
    Parsing(PairParsingError),
}

impl From<PairParsingError> for FetchError {
    fn from(err: PairParsingError) -> (r: FetchError) {
        FetchError::Parsing(err)
    }
}

impl vstd::std_specs::convert::FromSpecImpl<PairParsingError> for FetchError {
    open spec fn obeys_from_spec() -> bool {
        true
    }

    open spec fn from_spec(err: PairParsingError) -> FetchError {
        FetchError::Parsing(err)
    }
}

} // verus!
