//! Opening a vesting stream.

use crate::error::ErrorCode;
use crate::state::Creator;
use vstd::prelude::*;

verus! {

/// What every stream deposits, and releases per period.
pub const STREAM_AMOUNT: u64 = 1_000_000;

/// The length of a vesting period and of a withdrawal interval: thirty days,
/// in seconds.
pub const STREAM_PERIOD: u64 = 2_592_000;

/// The terms that a stream is opened with.
#[derive(Clone, Copy, Debug, PartialEq, Eq, Structural)]
pub struct StreamTerms {
    pub start_time: u64,
    pub net_amount_deposited: u64,
    pub period: u64,
    pub amount_per_period: u64,
    pub cliff: u64,
    pub cliff_amount: u64,
    pub cancelable_by_sender: bool,
    pub cancelable_by_recipient: bool,
    pub automatic_withdrawal: bool,
    pub transferable_by_sender: bool,
    pub transferable_by_recipient: bool,
    pub can_topup: bool,
    pub withdraw_frequency: u64,
}

/// What the instruction that opens a stream reads and changes: the creator's
/// record, which counts the streams.
#[derive(Clone, Copy, Debug)]
pub struct CreateStream {
    pub creator: Creator,
}

/// The terms of a stream that starts at `start_time`: one deposit released
/// in one period of thirty days without a cliff, which the sender may cancel,
/// transfer and top up, and which is withdrawn automatically.
pub open spec fn stream_terms(start_time: u64) -> StreamTerms {
    StreamTerms {
        start_time,
        net_amount_deposited: STREAM_AMOUNT,
        period: STREAM_PERIOD,
        amount_per_period: STREAM_AMOUNT,
        cliff: 0,
        cliff_amount: 0,
        cancelable_by_sender: true,
        cancelable_by_recipient: false,
        automatic_withdrawal: true,
        transferable_by_sender: true,
        transferable_by_recipient: false,
        can_topup: true,
        withdraw_frequency: STREAM_PERIOD,
    }
}

impl CreateStream {
    /// The terms of the next stream, which starts at `start_time`, and one
    /// stream more in the creator's record. The record must have room for it.
    pub fn create_stream(&mut self, start_time: u64) -> (r: Result<StreamTerms, ErrorCode>)
        requires
            old(self).creator.streams < u8::MAX,
        ensures
            r == Ok::<StreamTerms, ErrorCode>(stream_terms(start_time)),
            final(self).creator.streams == old(self).creator.streams + 1,
            final(self).creator.bump == old(self).creator.bump,
    {
        let terms = StreamTerms {
            start_time,
            net_amount_deposited: STREAM_AMOUNT,
            period: STREAM_PERIOD,
            amount_per_period: STREAM_AMOUNT,
            cliff: 0,
            cliff_amount: 0,
            cancelable_by_sender: true,
            cancelable_by_recipient: false,
            automatic_withdrawal: true,
            transferable_by_sender: true,
            transferable_by_recipient: false,
            can_topup: true,
            withdraw_frequency: STREAM_PERIOD,
        };
        self.creator.streams = self.creator.streams + 1;
        Ok(terms)
    }
}

} // verus!
