//! Opening the pool.

use crate::error::ErrorCode;
use crate::liquidity::calculate_liquidity_spec;
use crate::price::{calculate_init_price_spec, init_price_in_range, init_price_in_range_spec};
use crate::range::{estimate_range, estimate_range_spec, MAX_SQRT_PRICE, MIN_SQRT_PRICE};
use crate::state::Creator;
use vstd::prelude::*;

verus! {

/// The part of the creator's balance of token A that goes into the pool, in
/// basis points.
pub const COMMITMENT_IN_BPS: u16 = 1_000;

/// The amount of token B that every pool opens with.
pub const POOL_AMOUNT: u64 = 1_000_000_000_000;

/// What a pool is opened with.
#[derive(Clone, Copy, Debug, PartialEq, Eq, Structural)]
pub struct PoolBootstrapResult {
    pub sqrt_price: u128,
    pub sqrt_min_price: u128,
    pub sqrt_max_price: u128,
    pub liquidity: u128,
}

/// What the instruction that opens a pool reads: the creator's record and the
/// balances of the two token accounts that fund the pool.
#[derive(Clone, Copy, Debug)]
pub struct InitializePool {
    pub creator: Creator,
    pub payer_token_a_amount: u64,
    pub payer_token_b_amount: u64,
}

/// The amount of token A that is committed to the pool out of a balance.
pub open spec fn committed_amount(balance: int) -> int {
    balance * COMMITMENT_IN_BPS as int / 10_000
}

/// What [`InitializePool::create_pool`] returns on a balance of token A: the
/// range around the price that the committed amount stands for, the price
/// solved and found in that range, and the liquidity at that price; or the
/// first failure on the way.
pub open spec fn create_pool_spec(payer_token_a_amount: int) -> Result<
    PoolBootstrapResult,
    ErrorCode,
> {
    let amount_a = committed_amount(payer_token_a_amount);
    let amount_b = POOL_AMOUNT as int;
    if payer_token_a_amount * COMMITMENT_IN_BPS as int > u64::MAX {
        Err(ErrorCode::ArithmeticOverflow)
    } else {
        match estimate_range_spec(amount_a, amount_b) {
            Err(e) => Err(e),
            Ok(range) => match init_price_in_range_spec(
                amount_a,
                amount_b,
                range.0 as int,
                range.1 as int,
            ) {
                Err(e) => Err(e),
                Ok(sqrt_price) => match calculate_liquidity_spec(
                    amount_a,
                    amount_b,
                    sqrt_price as int,
                    range.0 as int,
                    range.1 as int,
                ) {
                    Err(e) => Err(e),
                    Ok(liquidity) => Ok(
                        PoolBootstrapResult {
                            sqrt_price,
                            sqrt_min_price: range.0,
                            sqrt_max_price: range.1,
                            liquidity,
                        },
                    ),
                },
            },
        }
    }
}

impl InitializePool {
    /// Starts the creator's record: no stream yet, and the bump it was made
    /// with.
    pub fn populate_creator(&mut self, bump: [u8; 1]) -> (r: Result<(), ErrorCode>)
        ensures
            r is Ok,
            final(self).creator.streams == 0,
            final(self).creator.bump == bump,
            final(self).payer_token_a_amount == old(self).payer_token_a_amount,
            final(self).payer_token_b_amount == old(self).payer_token_b_amount,
    {
        self.creator = Creator { bump, streams: 0 };
        Ok(())
    }

    /// What the pool is opened with: a tenth of the balance of token A against
    /// the fixed amount of token B, in a range of about thirty percent to
    /// either side of the price that the two amounts stand for.
    ///
    /// A pool that it returns has its price strictly inside its range, its
    /// range inside the bounds that the market maker accepts, and a liquidity
    /// that is not zero.
    pub fn create_pool(&self) -> (r: Result<PoolBootstrapResult, ErrorCode>)
        ensures
            r == create_pool_spec(self.payer_token_a_amount as int),
            r matches Ok(pool) ==> {
                &&& MIN_SQRT_PRICE <= pool.sqrt_min_price < pool.sqrt_price
                &&& pool.sqrt_price < pool.sqrt_max_price <= MAX_SQRT_PRICE
                &&& pool.liquidity > 0
            },
    {
        let amount_a = match self.payer_token_a_amount.checked_mul(COMMITMENT_IN_BPS as u64) {
            Some(scaled) => scaled / 10_000,
            None => {
                return Err(ErrorCode::ArithmeticOverflow);
            },
        };
        let (range_sqrt_min, range_sqrt_max) = match estimate_range(amount_a, POOL_AMOUNT) {
            Ok(range) => range,
            Err(e) => {
                return Err(e);
            },
        };
        let sqrt_price = match init_price_in_range(
            amount_a,
            POOL_AMOUNT,
            range_sqrt_min,
            range_sqrt_max,
        ) {
            Ok(sqrt_price) => sqrt_price,
            Err(e) => {
                return Err(e);
            },
        };
        let liquidity = match Self::calculate_liquidity(
            amount_a,
            POOL_AMOUNT,
            sqrt_price,
            range_sqrt_min,
            range_sqrt_max,
        ) {
            Ok(liquidity) => liquidity,
            Err(e) => {
                return Err(e);
            },
        };
        Ok(
            PoolBootstrapResult {
                sqrt_price,
                sqrt_min_price: range_sqrt_min,
                sqrt_max_price: range_sqrt_max,
                liquidity,
            },
        )
    }

    /// The opening price for two amounts in a range: see
    /// [`crate::price::calculate_init_price`].
    pub fn calculate_init_price(
        token_a_amount: u64,
        token_b_amount: u64,
        min_sqrt_price: u128,
        max_sqrt_price: u128,
    ) -> (r: Result<u128, ErrorCode>)
        requires
            max_sqrt_price > 0,
        ensures
            r == calculate_init_price_spec(
                token_a_amount as int,
                token_b_amount as int,
                min_sqrt_price as int,
                max_sqrt_price as int,
            ),
    {
        crate::price::calculate_init_price(
            token_a_amount,
            token_b_amount,
            min_sqrt_price,
            max_sqrt_price,
        )
    }

    /// The liquidity of two amounts at a price in a range: see
    /// [`crate::liquidity::calculate_liquidity`].
    pub fn calculate_liquidity(
        token_a_amount: u64,
        token_b_amount: u64,
        sqrt_price: u128,
        sqrt_min_price: u128,
        sqrt_max_price: u128,
    ) -> (r: Result<u128, ErrorCode>)
        requires
            sqrt_min_price <= sqrt_price <= sqrt_max_price,
        ensures
            r == calculate_liquidity_spec(
                token_a_amount as int,
                token_b_amount as int,
                sqrt_price as int,
                sqrt_min_price as int,
                sqrt_max_price as int,
            ),
            r matches Ok(liquidity) ==> (liquidity > 0 <==> (token_a_amount > 0 && token_b_amount
                > 0)),
    {
        crate::liquidity::calculate_liquidity(
            token_a_amount,
            token_b_amount,
            sqrt_price,
            sqrt_min_price,
            sqrt_max_price,
        )
    }
}

} // verus!
