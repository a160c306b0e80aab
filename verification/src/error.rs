//! The failures that the engines report.

use vstd::prelude::*;

verus! {

/// Why a calculation was refused. Every failure is final for the call that met
/// it: nothing is retried and no partial result is handed out.
#[derive(Clone, Copy, Debug, PartialEq, Eq, Structural)]
pub enum ErrorCode {
    /// A sum, difference, product, quotient, shift or narrowing left its domain.
    ArithmeticOverflow,
    /// The caller broke a stated condition: a zero amount, a degenerate price
    /// range, or a distribution before the cooldown has passed.
    InvalidPrecondition,
    /// The solved price lies outside the range it was solved for.
    InfeasibleRatio,
    /// The pool does not collect its fees in token B alone.
    InvalidCollectFeeMode,
}

} // verus!
