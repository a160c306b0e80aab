//! The instructions of the program, each as the plain values that its
//! calculation reads and the plain values that it decides.
//!
//! Nothing here reads an account or sends a transfer. A caller loads the
//! balances and records, calls the instruction, and carries out what it
//! returns.

pub mod claim_fees;
pub mod create_stream;
pub mod deposit;
pub mod initialize;
