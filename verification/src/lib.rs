//! Calculation engines behind a token-sale and liquidity-bootstrapping program.
//!
//! Two families of pure functions live here. The fee distribution engine splits
//! the settlement-token revenue of one cycle pro rata over a set of vesting
//! grants and sweeps the rest to the creator. The liquidity and price engine
//! sizes an automated-market-maker position from two token balances and a
//! bounded price range. Both rest on 256-bit integer arithmetic.
//!
//! Every function takes plain values and returns plain values or a typed error;
//! what each one returns is stated in its contract and proved.

pub mod bigmath;
pub mod error;
pub mod state;
pub mod vesting;
pub mod distribution;
pub mod liquidity;
pub mod price;
pub mod range;
pub mod context;
