//! One vesting grant and the part of it that is still locked.

use crate::error::ErrorCode;
use vstd::prelude::*;

verus! {

/// A vesting grant as one distribution cycle sees it. `vested` is what the
/// vesting schedule has released as of the instant of the cycle; every grant
/// of one cycle is read at that same instant.
#[derive(Clone, Copy, Debug)]
pub struct Grant {
    pub id: u64,
    pub recipient: [u8; 32],
    pub net_deposited: u64,
    pub withdrawn: u64,
    pub vested: u64,
}

impl Grant {
    /// What is neither vested nor withdrawn, as a mathematical integer. It is
    /// negative where the record is inconsistent.
    pub open spec fn locked_spec(self) -> int {
        self.net_deposited - self.vested - self.withdrawn
    }

    /// The locked amount of the grant. An inconsistent record, one that has
    /// vested and withdrawn more than was deposited, is an error and is not
    /// clamped to zero.
    pub fn locked(&self) -> (r: Result<u64, ErrorCode>)
        ensures
            match r {
                Ok(l) => l == self.locked_spec() && l <= self.net_deposited,
                Err(e) => e == ErrorCode::ArithmeticOverflow && self.locked_spec() < 0,
            },
    {
        match self.net_deposited.checked_sub(self.vested) {
            None => Err(ErrorCode::ArithmeticOverflow),
            Some(unvested) => match unvested.checked_sub(self.withdrawn) {
                None => Err(ErrorCode::ArithmeticOverflow),
                Some(l) => Ok(l),
            },
        }
    }
}

} // verus!
