//! Option-chain preparation for one underlying symbol: normalising a daily
//! futures-and-options extract, splitting it into option and futures quotes,
//! joining each option to its futures quote, and selecting the inputs of the
//! implied-volatility solve.
pub mod cli;
pub mod date;
pub mod price;
pub mod fno;
