//! A verified market-simulation engine for offline backtesting of trading
//! strategies against historical tick and trading-session data.
//!
//! The engine maintains a virtual clock, a trading-session state machine, a
//! no-lookahead price oracle over an in-memory price table, and a ledger of
//! cash and share holdings. Every operation is specified and verified: the
//! clock never moves backwards, session transitions follow the daily cycle,
//! no price query can observe data past the simulated "now", and the ledger
//! never goes negative.

use vstd::prelude::*;

pub mod clock;
pub mod engine;
pub mod market;
pub mod series;
pub mod store;
pub mod symbols;

verus! {

pub fn add(left: u64, right: u64) -> (r: u64)
    requires
        left + right <= u64::MAX,
    ensures
        r == left + right,
{
    left + right
}

} // verus!
