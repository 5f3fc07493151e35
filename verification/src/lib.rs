//! Cross-pool arbitrage engine over a streamed view of DEX liquidity pools.
//!
//! The crate keeps a cache of pool states fed by an event stream, derives a
//! per-pair price feed from it, searches for profitable two-leg round trips
//! between pools quoting the same token pair, ranks the candidates by
//! risk-adjusted expected value, and gates them against an external price
//! oracle. All amounts are integers in the chain's smallest unit; prices,
//! probabilities and scores are fixed-point integers (see [`numeric`]).

pub mod codec;
pub mod detector;
pub mod engine;
pub mod flash;
pub mod keys;
pub mod numeric;
pub mod oracle;
pub mod pool;
pub mod profit;
pub mod ranker;
pub mod route;
pub mod search;
pub mod store;

use vstd::prelude::*;

verus! {

} // verus!
