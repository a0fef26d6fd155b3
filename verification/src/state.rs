//! The persisted records: the lottery itself, the per-participant escrow
//! pots, and the token accounts whose balances the engine moves.

use crate::addr::Addr;
use vstd::prelude::*;

verus! {

/// The lottery lifecycle.  Transitions run only forward:
/// `Pending` → `Active` → `Ended`.
#[derive(Clone, Copy, PartialEq, Eq, Structural, Debug)]
pub enum LotteryState {
    Pending,
    Active,
    Ended,
}

impl LotteryState {
    /// Position of a state along the lifecycle, for stating monotonicity.
    pub open spec fn rank(self) -> int {
        match self {
            LotteryState::Pending => 0,
            LotteryState::Active => 1,
            LotteryState::Ended => 2,
        }
    }
}

/// One lottery instance, stored at an address derived from the program and
/// a creator-chosen seed.
#[derive(Clone, Copy, Debug)]
pub struct Lottery {
    /// The account allowed to drive lifecycle transitions and the winner
    /// payout.
    pub authority: Addr,
    /// The mint of the fungible token this lottery escrows.
    pub token_mint: Addr,
    /// Lifecycle state; moves only forward.
    pub state: LotteryState,
    /// Start of the bidding window.  Stamped to the current time when the
    /// lottery is started.
    pub start_time: i64,
    /// End of the bidding window; bids at or after it are rejected.
    pub end_time: i64,
    /// Number of pots created under this lottery (first-time bids only).
    pub total_pot_count: u64,
    /// Owner address of the winning pot; `None` until the lottery ends,
    /// immutable afterwards.
    pub winning_pot: Option<Addr>,
    /// Address-derivation nonce of the lottery account.
    pub bump: u8,
}

/// One participant's escrow position within one lottery.  A pot is created
/// on the participant's first bid and never deleted by the engine.
#[derive(Clone, Copy, PartialEq, Eq, Structural, Debug)]
pub struct Pot {
    /// Address of the lottery this pot belongs to.
    pub lottery: Addr,
    /// The participant who deposited into this pot.
    pub owner: Addr,
    /// Address of the token account actually holding the locked tokens.
    pub escrow_account: Addr,
    /// Total tokens the owner has deposited across all bids.
    pub deposit_amount: u64,
    /// Participation weight: one ticket per successful bid.
    pub ticket_count: u64,
    /// Whether this pot has been settled (paid out or refunded).  Flips
    /// false → true at most once.
    pub claimed: bool,
}

/// A fungible-token account: the unit the external transfer primitive
/// debits and credits.
#[derive(Clone, Copy, PartialEq, Eq, Structural, Debug)]
pub struct TokenAccount {
    /// The account's address on the host ledger.
    pub address: Addr,
    /// The mint whose tokens this account holds.
    pub mint: Addr,
    /// Tokens currently resident in the account.
    pub balance: u64,
}

} // verus!
