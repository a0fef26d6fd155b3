//! The error taxonomy.  Every operation either succeeds in full or is
//! rejected with exactly one of these codes, and no rejected operation
//! mutates any record.

use vstd::prelude::*;

verus! {

/// Why an operation was rejected.
#[derive(Clone, Copy, PartialEq, Eq, Structural, Debug)]
pub enum LotteryError {
    /// The required signer is missing, or the caller does not match the
    /// recorded authority (or pot owner, on the refund path).
    NotAuthorized,
    /// The operation is illegal in the lottery's current lifecycle state.
    InvalidState,
    /// A bid was placed while the lottery is not active.
    LotteryNotActive,
    /// A bid was placed outside the lottery's `[start_time, end_time)` window.
    LotteryWindowClosed,
    /// The pot was already settled once; a pot is paid out at most once.
    AlreadyClaimed,
    /// The presented pot is not the winning pot (winner path), or is the
    /// winning pot (refund path, which only losing pots may use).
    NotWinner,
    /// The token transfer primitive would decline: insufficient balance,
    /// mismatched mint, or a balance that would overflow.
    TransferFailed,
    /// The derived lottery address already holds lottery data.
    AlreadyInitialized,
    /// The lottery was asked to end while no tickets have been issued.
    NoParticipants,
    /// The token mint reference is malformed (the all-zero address).
    InvalidMint,
    /// The instruction payload could not be deserialized.
    MalformedInput,
}

} // verus!
