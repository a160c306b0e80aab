//! Depositing into an open pool.

use crate::error::ErrorCode;
use crate::liquidity::calculate_liquidity_spec;
use crate::state::InvestorFeePositionOwnerPda;
use vstd::prelude::*;

verus! {

/// The fee mode of a pool that collects its fees in token B alone.
pub const COLLECT_FEE_MODE_ONLY_B: u8 = 1;

/// What a deposit reads of the pool: how it collects fees, its price, and the
/// range it covers.
#[derive(Clone, Copy, Debug)]
pub struct PoolState {
    pub collect_fee_mode: u8,
    pub sqrt_price: u128,
    pub sqrt_min_price: u128,
    pub sqrt_max_price: u128,
}

/// What is asked of the market maker when liquidity is added: the liquidity,
/// and the most of either token that may be taken for it.
#[derive(Clone, Copy, Debug, PartialEq, Eq, Structural)]
pub struct AddLiquidityParameters {
    pub liquidity_delta: u128,
    pub token_a_amount_threshold: u64,
    pub token_b_amount_threshold: u64,
}

/// What the deposit instruction reads: the record of the position's owner,
/// the mint of token B, and the balances of the two funding accounts.
#[derive(Clone, Copy, Debug)]
pub struct Deposit {
    pub investor_fee_pos_owner: InvestorFeePositionOwnerPda,
    pub mint_b: [u8; 32],
    pub payer_token_a_amount: u64,
    pub payer_token_b_amount: u64,
}

/// What [`Deposit::deposit`] returns: a refusal of a pool that does not
/// collect its fees in token B alone, and else the liquidity of the two
/// balances at the pool's price, with the balances as thresholds.
pub open spec fn deposit_spec(
    payer_token_a_amount: u64,
    payer_token_b_amount: u64,
    pool: PoolState,
) -> Result<AddLiquidityParameters, ErrorCode> {
    if pool.collect_fee_mode != COLLECT_FEE_MODE_ONLY_B {
        Err(ErrorCode::InvalidCollectFeeMode)
    } else {
        match calculate_liquidity_spec(
            payer_token_a_amount as int,
            payer_token_b_amount as int,
            pool.sqrt_price as int,
            pool.sqrt_min_price as int,
            pool.sqrt_max_price as int,
        ) {
            Err(e) => Err(e),
            Ok(liquidity_delta) => Ok(
                AddLiquidityParameters {
                    liquidity_delta,
                    token_a_amount_threshold: payer_token_a_amount,
                    token_b_amount_threshold: payer_token_b_amount,
                },
            ),
        }
    }
}

impl Deposit {
    /// Starts the record of the owner of the fee position: the mint whose
    /// fees it collects, no distribution yet, and the bump it was made with.
    pub fn initialize_investor_fee_pos_owner(&mut self, bump: [u8; 1]) -> (r: Result<
        (),
        ErrorCode,
    >)
        ensures
            r is Ok,
            final(self).investor_fee_pos_owner.associated_mint == old(self).mint_b,
            final(self).investor_fee_pos_owner.last_claimed_at == 0,
            final(self).investor_fee_pos_owner.bump == bump,
            final(self).mint_b == old(self).mint_b,
            final(self).payer_token_a_amount == old(self).payer_token_a_amount,
            final(self).payer_token_b_amount == old(self).payer_token_b_amount,
    {
        self.investor_fee_pos_owner = InvestorFeePositionOwnerPda {
            associated_mint: self.mint_b,
            last_claimed_at: 0,
            bump,
        };
        Ok(())
    }

    /// The liquidity to add for the whole of both balances. The pool's price
    /// may not lie outside the pool's range.
    pub fn deposit(&self, pool: &PoolState) -> (r: Result<AddLiquidityParameters, ErrorCode>)
        requires
            pool.sqrt_min_price <= pool.sqrt_price <= pool.sqrt_max_price,
        ensures
            r == deposit_spec(self.payer_token_a_amount, self.payer_token_b_amount, *pool),
    {
        if pool.collect_fee_mode != COLLECT_FEE_MODE_ONLY_B {
            return Err(ErrorCode::InvalidCollectFeeMode);
        }
        match Self::calculate_liquidity(
            self.payer_token_a_amount,
            self.payer_token_b_amount,
            pool.sqrt_price,
            pool.sqrt_min_price,
            pool.sqrt_max_price,
        ) {
            Ok(liquidity_delta) => Ok(
                AddLiquidityParameters {
                    liquidity_delta,
                    token_a_amount_threshold: self.payer_token_a_amount,
                    token_b_amount_threshold: self.payer_token_b_amount,
                },
            ),
            Err(e) => Err(e),
        }
    }

    /// The liquidity of two amounts at a price in a range: see
    /// [`crate::liquidity::calculate_liquidity`].
    pub fn calculate_liquidity(
        token_a_amount: u64,
        token_b_amount: u64,
        sqrt_price: u128,
        sqrt_min_price: u128,
        sqrt_max_price: u128,
    ) -> (r: Result<u128, ErrorCode>)
        requires
            sqrt_min_price <= sqrt_price <= sqrt_max_price,
        ensures
            r == calculate_liquidity_spec(
                token_a_amount as int,
                token_b_amount as int,
                sqrt_price as int,
                sqrt_min_price as int,
                sqrt_max_price as int,
            ),
    {
        crate::liquidity::calculate_liquidity(
            token_a_amount,
            token_b_amount,
            sqrt_price,
            sqrt_min_price,
            sqrt_max_price,
        )
    }
}

} // verus!
