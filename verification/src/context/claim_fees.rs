//! Distributing the fees that the position has collected.

use crate::distribution::{
    cycle_error, cycle_payouts, cycle_remainder, run, sum_payouts, DistributionCycleState, Shares,
};
use crate::error::ErrorCode;
use crate::state::InvestorFeePositionOwnerPda;
use crate::vesting::Grant;
use vstd::prelude::*;

verus! {

/// What the distribution reads and changes: the record of the position's
/// owner, which holds the time of the last distribution, and the balance of
/// the account that the fees were claimed into.
#[derive(Clone, Copy, Debug)]
pub struct ClaimFees {
    pub investor_fee_pos_owner: InvestorFeePositionOwnerPda,
    pub token_b_amount: u64,
}

impl ClaimFees {
    /// Runs one cycle of [`crate::distribution::run`] on the balance of the
    /// fee account, as of `now`.
    ///
    /// On success the time of the cycle is recorded, which never moves it
    /// back, and the balance is reduced by all that is paid out. On a refusal
    /// nothing changes.
    pub fn distribute(&mut self, now: i64, grants: &Vec<Grant>) -> (r: Result<Shares, ErrorCode>)
        ensures
            match r {
                Ok(shares) => {
                    &&& cycle_error(
                        now as int,
                        old(self).token_b_amount as int,
                        grants@,
                        old(self).investor_fee_pos_owner.last_claimed_at as int,
                    ) is None
                    &&& shares.payouts@ == cycle_payouts(old(self).token_b_amount as int, grants@)
                    &&& shares.creator_remainder == cycle_remainder(
                        old(self).token_b_amount as int,
                        grants@,
                    )
                    &&& final(self).investor_fee_pos_owner.last_claimed_at == now
                    &&& now >= old(self).investor_fee_pos_owner.last_claimed_at
                    &&& final(self).investor_fee_pos_owner.associated_mint == old(
                        self,
                    ).investor_fee_pos_owner.associated_mint
                    &&& final(self).investor_fee_pos_owner.bump == old(
                        self,
                    ).investor_fee_pos_owner.bump
                    &&& final(self).token_b_amount == old(self).token_b_amount - sum_payouts(
                        shares.payouts@,
                    ) - shares.creator_remainder
                },
                Err(e) => {
                    &&& cycle_error(
                        now as int,
                        old(self).token_b_amount as int,
                        grants@,
                        old(self).investor_fee_pos_owner.last_claimed_at as int,
                    ) == Some(e)
                    &&& *final(self) == *old(self)
                },
            },
    {
        let prior_state = DistributionCycleState {
            last_distributed_at: self.investor_fee_pos_owner.last_claimed_at,
        };
        match run(now, self.token_b_amount, grants, prior_state) {
            Ok(result) => {
                let shares = result.shares;
                self.investor_fee_pos_owner.last_claimed_at = result.new_state.last_distributed_at;
                if self.token_b_amount >= crate::distribution::DUST_THRESHOLD {
                    self.token_b_amount = 0;
                }
                Ok(shares)
            },
            Err(e) => Err(e),
        }
    }
}

} // verus!
