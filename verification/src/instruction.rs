//! The operations, as a tagged union dispatched by a single entrypoint.
//!
//! Each variant carries its serialized argument payload; the accounts an
//! operation touches (signer, pot, escrow, destination) arrive separately
//! as an explicit typed request, validated at the top of each operation.
//! The wire encoding of the union and of every payload is the fixed binary
//! form in [`crate::codec`].

use crate::addr::Addr;
use vstd::prelude::*;

verus! {

/// Arguments for claiming a losing deposit back (refund path).
#[derive(Clone, Copy, Debug)]
pub struct ClaimTokenArgs {
    /// Address-derivation nonce of the caller's pot account.
    pub pot_bump: u8,
}

/// Arguments for creating a lottery.
#[derive(Clone, Debug)]
pub struct CreateLotteryArgs {
    /// The mint of the fungible token the lottery escrows.
    pub token_mint: Addr,
    /// Scheduled start of the bidding window.
    pub start_time: i64,
    /// End of the bidding window.
    pub end_time: i64,
    /// Creator-chosen seed from which the lottery address is derived.
    pub seed: Vec<u8>,
}

/// Arguments for paying the winning pot out to a destination (winner path).
#[derive(Clone, Copy, Debug)]
pub struct ClaimBidArgs {
    /// Address-derivation nonce of the presented pot account.
    pub pot_bump: u8,
}

/// Arguments for ending a lottery.  Ending carries no payload: the winner
/// is drawn deterministically from the accumulated on-ledger state.
#[derive(Clone, Copy, Debug)]
pub struct EndLotteryArgs {
    /// Address-derivation nonce of the lottery account.
    pub bump: u8,
}

/// Arguments for starting a pending lottery.
#[derive(Clone, Copy, Debug)]
pub struct StartLotteryArgs {
    /// Address-derivation nonce of the lottery account.
    pub bump: u8,
}

/// Arguments for placing a bid: lock `amount` tokens, receive one ticket.
#[derive(Clone, Copy, Debug)]
pub struct GetTicketArgs {
    /// Tokens to move from the bidder's funding account into escrow.
    pub amount: u64,
}

/// The mathematical shape of one external call: what an instruction says,
/// with the seed as a plain byte sequence.  Contracts and the wire-format
/// specification speak of this shape; [`LotteryInstruction`] is its
/// executable carrier.
pub enum InstructionView {
    ClaimToken { pot_bump: u8 },
    CreateLottery { token_mint: Addr, start_time: i64, end_time: i64, seed: Seq<u8> },
    ClaimBid { pot_bump: u8 },
    EndLottery { bump: u8 },
    StartLottery { bump: u8 },
    SetAuthority,
    GetTicket { amount: u64 },
}

/// One external call into the engine.  The wire form is one tag byte (the
/// variant's position below) followed by the variant's payload.
#[derive(Clone, Debug)]
pub enum LotteryInstruction {
    /// Claim a losing deposit back after the lottery has ended.
    ClaimToken(ClaimTokenArgs),
    /// Create a new lottery in the `Pending` state.
    CreateLottery(CreateLotteryArgs),
    /// Move the winning pot's tokens to the destination account.
    ClaimBid(ClaimBidArgs),
    /// End an active lottery and record the drawn winner.
    EndLottery(EndLotteryArgs),
    /// Start a pending lottery, stamping its effective start time.
    StartLottery(StartLotteryArgs),
    /// Rotate the lottery's controlling authority.
    SetAuthority,
    /// Place a bid on a running lottery.
    GetTicket(GetTicketArgs),
}

impl View for LotteryInstruction {
    type V = InstructionView;

    open spec fn view(&self) -> InstructionView {
        match self {
            LotteryInstruction::ClaimToken(a) => (InstructionView::ClaimToken {
                pot_bump: a.pot_bump,
            }),
            LotteryInstruction::CreateLottery(a) => (InstructionView::CreateLottery {
                token_mint: a.token_mint,
                start_time: a.start_time,
                end_time: a.end_time,
                seed: a.seed@,
            }),
            LotteryInstruction::ClaimBid(a) => (InstructionView::ClaimBid {
                pot_bump: a.pot_bump,
            }),
            LotteryInstruction::EndLottery(a) => (InstructionView::EndLottery { bump: a.bump }),
            LotteryInstruction::StartLottery(a) => (InstructionView::StartLottery { bump: a.bump }),
            LotteryInstruction::SetAuthority => InstructionView::SetAuthority,
            LotteryInstruction::GetTicket(a) => (InstructionView::GetTicket { amount: a.amount }),
        }
    }
}

} // verus!
