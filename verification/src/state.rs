//! The records that the program keeps between calls.

use vstd::prelude::*;

verus! {

/// The creator's record: how many vesting streams were opened for it.
#[derive(Clone, Copy, Debug)]
pub struct Creator {
    pub streams: u8,
    pub bump: [u8; 1],
}

/// The owner of the fee position of one mint, with the time of the last
/// distribution of its fees.
#[derive(Clone, Copy, Debug)]
pub struct InvestorFeePositionOwnerPda {
    pub associated_mint: [u8; 32],
    pub last_claimed_at: i64,
    pub bump: [u8; 1],
}

} // verus!
