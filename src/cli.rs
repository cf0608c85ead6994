//! The invocation surface: which symbol the pipeline is run for.
use vstd::prelude::*;

verus! {

/// Options accepted by the program: an optional target symbol.
#[derive(Debug)]
pub struct Args {
    /// Name of the symbol to extract.
    pub symbol: Option<String>,
}

/// The symbol used when none is given.
pub open spec fn default_symbol() -> Seq<char> {
    "NIFTY"@
}

impl Args {
    /// The symbol to extract: the one given, else `NIFTY`.
    pub fn target_symbol(&self) -> (r: String)
        ensures
            r@ == match self.symbol {
                Some(s) => s@,
                None => default_symbol(),
            },
    {
        match &self.symbol {
            Some(s) => s.clone(),
            None => String::from_str("NIFTY"),
        }
    }
}

} // verus!
