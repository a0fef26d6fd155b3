//! The lottery engine: one lottery, its pots, and their escrow accounts,
//! with every operation an atomic validate-then-mutate step.
//!
//! Each operation's outcome is given by a specification step function
//! (`..._result` for the returned code, `..._next` for the successor
//! state), and the executable methods are proved to agree with those
//! functions exactly.  Checks run in a fixed order: the authority (or
//! ownership) check first, then lifecycle legality, then the operation's
//! own conditions; a rejected operation changes nothing.

use crate::addr::Addr;
use crate::codec::{decode_instruction, enc_lottery, enc_pot, encode_lottery, encode_pot, parse_instruction};
use crate::digest::{sha256, sha256_of};
use crate::error::LotteryError;
use crate::instruction::{CreateLotteryArgs, InstructionView, LotteryInstruction};
use crate::state::{Lottery, LotteryState, Pot, TokenAccount};
use vstd::bytes::{spec_u64_from_le_bytes, u64_from_le_bytes};
use vstd::pervasive::VecAdditionalExecFns;
use vstd::prelude::*;
use vstd::slice::slice_subrange;

verus! {

// ---------------------------------------------------------------------------
// Sums over the pot ledger.
// ---------------------------------------------------------------------------
/// Total tickets issued across a pot ledger.
pub open spec fn total_tickets(pots: Seq<Pot>) -> int
    decreases pots.len(),
{
    if pots.len() == 0 {
        0
    } else {
        total_tickets(pots.drop_last()) + pots.last().ticket_count
    }
}

/// Tickets issued to the first `i` pots: the cumulative ticket ranges that
/// the winner draw selects from.
pub open spec fn cum_tickets(pots: Seq<Pot>, i: int) -> int {
    total_tickets(pots.take(i))
}

/// Total deposits recorded across a pot ledger.
pub open spec fn sum_deposits(pots: Seq<Pot>) -> int
    decreases pots.len(),
{
    if pots.len() == 0 {
        0
    } else {
        sum_deposits(pots.drop_last()) + pots.last().deposit_amount
    }
}

/// Total tokens actually resident across escrow accounts.
pub open spec fn sum_escrow(escrows: Seq<TokenAccount>) -> int
    decreases escrows.len(),
{
    if escrows.len() == 0 {
        0
    } else {
        sum_escrow(escrows.drop_last()) + escrows.last().balance
    }
}

/// Concatenated encodings of a pot ledger, in order: part of the winner
/// draw's digest input.
pub open spec fn enc_pots(pots: Seq<Pot>) -> Seq<u8>
    decreases pots.len(),
{
    if pots.len() == 0 {
        Seq::<u8>::empty()
    } else {
        enc_pots(pots.drop_last()) + enc_pot(pots.last())
    }
}

/// The pot whose cumulative ticket range contains ticket number `r`:
/// tickets are numbered in issuance order, pot by pot.
pub open spec fn ticket_holder(pots: Seq<Pot>, r: int) -> int {
    choose|i: int|
        0 <= i < pots.len() && #[trigger] cum_tickets(pots, i) <= r < cum_tickets(pots, i)
            + pots[i].ticket_count
}

/// Ticket totals are never negative.
pub proof fn lemma_total_tickets_nonneg(pots: Seq<Pot>)
    ensures
        total_tickets(pots) >= 0,
    decreases pots.len(),
{
    if pots.len() > 0 {
        lemma_total_tickets_nonneg(pots.drop_last());
    }
}

/// Ticket totals are bounded by one maximal count per pot.
pub proof fn lemma_total_tickets_bound(pots: Seq<Pot>)
    ensures
        total_tickets(pots) <= pots.len() * (u64::MAX as int),
    decreases pots.len(),
{
    if pots.len() > 0 {
        lemma_total_tickets_bound(pots.drop_last());
        assert((pots.len() - 1) * (u64::MAX as int) + (u64::MAX as int) == pots.len() * (
        u64::MAX as int)) by (nonlinear_arith);
    }
}

/// One more pot extends the cumulative total by that pot's tickets.
pub proof fn lemma_cum_step(pots: Seq<Pot>, i: int)
    requires
        0 <= i < pots.len(),
    ensures
        cum_tickets(pots, i + 1) == cum_tickets(pots, i) + pots[i].ticket_count,
{
    assert(pots.take(i + 1).drop_last() =~= pots.take(i));
    assert(pots.take(i + 1).last() == pots[i]);
}

/// Cumulative ticket totals grow with the index.
pub proof fn lemma_cum_mono(pots: Seq<Pot>, i: int, j: int)
    requires
        0 <= i <= j <= pots.len(),
    ensures
        cum_tickets(pots, i) <= cum_tickets(pots, j),
    decreases j - i,
{
    if i < j {
        lemma_cum_step(pots, i);
        lemma_cum_mono(pots, i + 1, j);
    }
}

/// The cumulative total over the whole ledger is the ticket total.
pub proof fn lemma_cum_all(pots: Seq<Pot>)
    ensures
        cum_tickets(pots, pots.len() as int) == total_tickets(pots),
{
    assert(pots.take(pots.len() as int) =~= pots);
}

/// Every ticket number below the total falls in some pot's range.
pub proof fn lemma_ticket_holder_exists(pots: Seq<Pot>, r: int)
    requires
        0 <= r < total_tickets(pots),
    ensures
        exists|i: int|
            0 <= i < pots.len() && #[trigger] cum_tickets(pots, i) <= r < cum_tickets(pots, i)
                + pots[i].ticket_count,
    decreases pots.len(),
{
    let n = pots.len() as int;
    if n > 0 {
        let pre = pots.drop_last();
        if r < total_tickets(pre) {
            lemma_ticket_holder_exists(pre, r);
            let i = choose|i: int|
                0 <= i < pre.len() && #[trigger] cum_tickets(pre, i) <= r < cum_tickets(pre, i)
                    + pre[i].ticket_count;
            assert(pots.take(i) =~= pre.take(i));
            assert(pots.take(i + 1) =~= pre.take(i + 1));
            lemma_cum_step(pots, i);
            lemma_cum_step(pre, i);
            assert(cum_tickets(pots, i) <= r < cum_tickets(pots, i) + pots[i].ticket_count);
        } else {
            lemma_total_tickets_nonneg(pre);
            assert(pots.take(n - 1) =~= pre);
            assert(cum_tickets(pots, n - 1) <= r < cum_tickets(pots, n - 1) + pots[n
                - 1].ticket_count);
        }
    }
}

/// Ticket ranges are disjoint: the holding pot is unique.
pub proof fn lemma_ticket_holder_unique(pots: Seq<Pot>, r: int, i: int, j: int)
    requires
        0 <= i < pots.len(),
        0 <= j < pots.len(),
        cum_tickets(pots, i) <= r < cum_tickets(pots, i) + pots[i].ticket_count,
        cum_tickets(pots, j) <= r < cum_tickets(pots, j) + pots[j].ticket_count,
    ensures
        i == j,
{
    if i < j {
        lemma_cum_step(pots, i);
        lemma_cum_mono(pots, i + 1, j);
    }
    if j < i {
        lemma_cum_step(pots, j);
        lemma_cum_mono(pots, j + 1, i);
    }
}

// ---------------------------------------------------------------------------
// The model of one lottery with its ledger.
// ---------------------------------------------------------------------------
/// The mathematical state of an engine: the lottery record, the pot
/// ledger, and the escrow accounts, with the lottery's own address.
#[verifier::ext_equal]
pub struct EngineView {
    pub address: Addr,
    pub lottery: Lottery,
    pub pots: Seq<Pot>,
    pub escrows: Seq<TokenAccount>,
}

impl EngineView {
    /// Per-pot custody clauses: the pot points back to this lottery, its
    /// escrow account is the one recorded, holds this lottery's mint, and
    /// holds exactly the recorded deposit until the pot is settled, after
    /// which it is empty.
    pub open spec fn pot_ok(self, i: int) -> bool
        recommends
            0 <= i < self.pots.len(),
            self.pots.len() == self.escrows.len(),
    {
        &&& self.pots[i].lottery == self.address
        &&& self.pots[i].escrow_account == self.escrows[i].address
        &&& self.escrows[i].mint == self.lottery.token_mint
        &&& (!self.pots[i].claimed ==> self.pots[i].deposit_amount == self.escrows[i].balance)
        &&& (self.pots[i].claimed ==> self.escrows[i].balance == 0)
    }

    /// Well-formedness: the invariant every operation preserves.
    pub open spec fn wf(self) -> bool {
        &&& self.pots.len() == self.escrows.len()
        &&& self.lottery.total_pot_count as int == self.pots.len() as int
        &&& (forall|i: int| 0 <= i < self.pots.len() ==> #[trigger] self.pot_ok(i))
        &&& (forall|i: int, j: int|
            #![trigger self.pots[i], self.pots[j]]
            0 <= i < self.pots.len() && 0 <= j < self.pots.len() && i != j
                ==> self.pots[i].owner != self.pots[j].owner)
        &&& (forall|i: int, j: int|
            #![trigger self.escrows[i], self.escrows[j]]
            0 <= i < self.escrows.len() && 0 <= j < self.escrows.len() && i != j
                ==> self.escrows[i].address != self.escrows[j].address)
        &&& (self.lottery.state == LotteryState::Pending ==> self.pots.len() == 0)
        &&& (self.lottery.state != LotteryState::Ended ==> self.lottery.winning_pot is None)
        &&& (self.lottery.state != LotteryState::Ended ==> forall|i: int|
            0 <= i < self.pots.len() ==> !(#[trigger] self.pots[i]).claimed)
        &&& (self.lottery.state == LotteryState::Ended ==> (self.lottery.winning_pot matches Some(
            w,
        ) && self.has_pot(w)))
    }

    /// Whether `owner` already has a pot in this lottery.
    pub open spec fn has_pot(self, owner: Addr) -> bool {
        exists|i: int| 0 <= i < self.pots.len() && (#[trigger] self.pots[i]).owner == owner
    }

    /// The index of `owner`'s pot (meaningful when `has_pot` holds; under
    /// `wf` owners are distinct, so the index is unique).
    pub open spec fn pot_index(self, owner: Addr) -> int {
        choose|i: int| 0 <= i < self.pots.len() && (#[trigger] self.pots[i]).owner == owner
    }

    /// The authority check every lifecycle mutation runs first: the caller
    /// signed and matches the recorded authority.
    pub open spec fn authorized(self, caller: Addr, signer: bool) -> bool {
        signer && caller == self.lottery.authority
    }

    /// Whether `now` lies within the bidding window `[start_time, end_time)`.
    pub open spec fn window_open(self, now: i64) -> bool {
        self.lottery.start_time <= now && now < self.lottery.end_time
    }

    /// Whether address `a` is no escrow account of this engine: external
    /// wallets handed in by the host are distinct accounts.
    pub open spec fn external_account(self, a: Addr) -> bool {
        forall|i: int| 0 <= i < self.escrows.len() ==> (#[trigger] self.escrows[i]).address != a
    }

    // -----------------------------------------------------------------------
    // Step functions: lifecycle.
    // -----------------------------------------------------------------------
    /// Outcome of starting the lottery.
    pub open spec fn start_result(self, caller: Addr, signer: bool) -> Result<(), LotteryError> {
        if !self.authorized(caller, signer) {
            Err(LotteryError::NotAuthorized)
        } else if self.lottery.state != LotteryState::Pending {
            Err(LotteryError::InvalidState)
        } else {
            Ok(())
        }
    }

    /// Successor state of starting: `Pending` becomes `Active`, and the
    /// effective start time is stamped to `now` (an authority may start
    /// ahead of the configured schedule).
    pub open spec fn start_next(self, caller: Addr, signer: bool, now: i64) -> EngineView {
        if self.start_result(caller, signer) is Ok {
            EngineView {
                lottery: Lottery {
                    state: LotteryState::Active,
                    start_time: now,
                    ..self.lottery
                },
                ..self
            }
        } else {
            self
        }
    }

    // -----------------------------------------------------------------------
    // Step functions: bidding.
    // -----------------------------------------------------------------------
    /// Outcome of a bid: the bidder must sign; the lottery must be active
    /// and inside its window; the funding wallet must hold this lottery's
    /// mint and cover the amount; and the escrow accounting must not
    /// overflow.  Transfer-level failures (mint mismatch, insufficient
    /// balance, overflow) surface as `TransferFailed`.
    pub open spec fn bid_result(
        self,
        bidder: Addr,
        signer: bool,
        wallet: TokenAccount,
        amount: u64,
        now: i64,
    ) -> Result<(), LotteryError> {
        if !signer {
            Err(LotteryError::NotAuthorized)
        } else if self.lottery.state != LotteryState::Active {
            Err(LotteryError::LotteryNotActive)
        } else if !self.window_open(now) {
            Err(LotteryError::LotteryWindowClosed)
        } else if wallet.mint != self.lottery.token_mint {
            Err(LotteryError::TransferFailed)
        } else if wallet.balance < amount {
            Err(LotteryError::TransferFailed)
        } else if self.has_pot(bidder) {
            if self.pots[self.pot_index(bidder)].deposit_amount + amount > u64::MAX {
                Err(LotteryError::TransferFailed)
            } else if self.pots[self.pot_index(bidder)].ticket_count == u64::MAX {
                Err(LotteryError::TransferFailed)
            } else {
                Ok(())
            }
        } else {
            if self.pots.len() as int >= u64::MAX as int {
                Err(LotteryError::TransferFailed)
            } else {
                Ok(())
            }
        }
    }

    /// Successor state of a bid.  A repeat bid tops the existing pot up
    /// and issues one more ticket; a first bid creates the pot (with the
    /// host-created empty escrow account `escrow_account`) and counts it
    /// in `total_pot_count`.
    pub open spec fn bid_next(
        self,
        bidder: Addr,
        signer: bool,
        wallet: TokenAccount,
        escrow_account: TokenAccount,
        amount: u64,
        now: i64,
    ) -> EngineView {
        if self.bid_result(bidder, signer, wallet, amount, now) is Ok {
            if self.has_pot(bidder) {
                let i = self.pot_index(bidder);
                let p = self.pots[i];
                let e = self.escrows[i];
                EngineView {
                    pots: self.pots.update(
                        i,
                        Pot {
                            deposit_amount: (p.deposit_amount + amount) as u64,
                            ticket_count: (p.ticket_count + 1) as u64,
                            ..p
                        },
                    ),
                    escrows: self.escrows.update(
                        i,
                        TokenAccount { balance: (e.balance + amount) as u64, ..e },
                    ),
                    ..self
                }
            } else {
                EngineView {
                    lottery: Lottery {
                        total_pot_count: (self.lottery.total_pot_count + 1) as u64,
                        ..self.lottery
                    },
                    pots: self.pots.push(
                        Pot {
                            lottery: self.address,
                            owner: bidder,
                            escrow_account: escrow_account.address,
                            deposit_amount: amount,
                            ticket_count: 1,
                            claimed: false,
                        },
                    ),
                    escrows: self.escrows.push(
                        TokenAccount { balance: amount, ..escrow_account },
                    ),
                    ..self
                }
            }
        } else {
            self
        }
    }

    /// The funding wallet after a bid: debited by `amount` on success.
    pub open spec fn bid_next_wallet(
        self,
        bidder: Addr,
        signer: bool,
        wallet: TokenAccount,
        amount: u64,
        now: i64,
    ) -> TokenAccount {
        if self.bid_result(bidder, signer, wallet, amount, now) is Ok {
            TokenAccount { balance: (wallet.balance - amount) as u64, ..wallet }
        } else {
            wallet
        }
    }

    // -----------------------------------------------------------------------
    // Step functions: ending and the winner draw.
    // -----------------------------------------------------------------------
    /// The bytes the winner draw hashes: the lottery record as the end
    /// operation finds it, followed by every pot record in creation
    /// order.  Every replaying node computes the same bytes.
    pub open spec fn draw_input(self) -> Seq<u8> {
        enc_lottery(self.lottery) + enc_pots(self.pots)
    }

    /// The winning ticket number: the first eight digest bytes, as a
    /// little-endian integer, reduced modulo the total tickets issued.
    pub open spec fn draw(self) -> int {
        let t = total_tickets(self.pots);
        if t == 0 {
            0
        } else {
            spec_u64_from_le_bytes(sha256_of(self.draw_input()).subrange(0, 8)) as int % t
        }
    }

    /// Outcome of ending the lottery.
    pub open spec fn end_result(self, caller: Addr, signer: bool) -> Result<(), LotteryError> {
        if !self.authorized(caller, signer) {
            Err(LotteryError::NotAuthorized)
        } else if self.lottery.state != LotteryState::Active {
            Err(LotteryError::InvalidState)
        } else if total_tickets(self.pots) == 0 {
            Err(LotteryError::NoParticipants)
        } else {
            Ok(())
        }
    }

    /// Index of the pot holding the winning ticket.
    pub open spec fn winner_of(self) -> int {
        ticket_holder(self.pots, self.draw())
    }

    /// Successor state of ending: the lottery is `Ended` and the drawn
    /// winner's pot owner is recorded, immutably.
    pub open spec fn end_next(self, caller: Addr, signer: bool) -> EngineView {
        if self.end_result(caller, signer) is Ok {
            EngineView {
                lottery: Lottery {
                    state: LotteryState::Ended,
                    winning_pot: Some(self.pots[self.winner_of()].owner),
                    ..self.lottery
                },
                ..self
            }
        } else {
            self
        }
    }

    // -----------------------------------------------------------------------
    // Step functions: settlement.
    // -----------------------------------------------------------------------
    /// The mutation both claim paths perform on success: the pot is
    /// marked claimed and its escrow account is emptied.
    pub open spec fn claim_settle(self, i: int) -> EngineView {
        EngineView {
            pots: self.pots.update(i, Pot { claimed: true, ..self.pots[i] }),
            escrows: self.escrows.update(i, TokenAccount { balance: 0, ..self.escrows[i] }),
            ..self
        }
    }

    /// The destination account after a successful settlement of pot `i`:
    /// credited with the pot's full recorded deposit.
    pub open spec fn claim_dest(self, i: int, dest: TokenAccount) -> TokenAccount {
        TokenAccount { balance: (dest.balance + self.pots[i].deposit_amount) as u64, ..dest }
    }

    /// Outcome of the winner claim: the authority signs the payout, the
    /// lottery must have ended, the presented pot must be the winning
    /// pot, unclaimed, and the destination must accept the transfer.
    pub open spec fn claim_bid_result(
        self,
        caller: Addr,
        signer: bool,
        i: int,
        dest: TokenAccount,
    ) -> Result<(), LotteryError>
        recommends
            0 <= i < self.pots.len(),
    {
        if !self.authorized(caller, signer) {
            Err(LotteryError::NotAuthorized)
        } else if self.lottery.state != LotteryState::Ended {
            Err(LotteryError::InvalidState)
        } else if self.lottery.winning_pot != Some(self.pots[i].owner) {
            Err(LotteryError::NotWinner)
        } else if self.pots[i].claimed {
            Err(LotteryError::AlreadyClaimed)
        } else if dest.mint != self.lottery.token_mint {
            Err(LotteryError::TransferFailed)
        } else if dest.balance + self.pots[i].deposit_amount > u64::MAX {
            Err(LotteryError::TransferFailed)
        } else {
            Ok(())
        }
    }

    /// Successor state of the winner claim.
    pub open spec fn claim_bid_next(
        self,
        caller: Addr,
        signer: bool,
        i: int,
        dest: TokenAccount,
    ) -> EngineView {
        if self.claim_bid_result(caller, signer, i, dest) is Ok {
            self.claim_settle(i)
        } else {
            self
        }
    }

    /// The destination account after the winner claim.
    pub open spec fn claim_bid_next_dest(
        self,
        caller: Addr,
        signer: bool,
        i: int,
        dest: TokenAccount,
    ) -> TokenAccount {
        if self.claim_bid_result(caller, signer, i, dest) is Ok {
            self.claim_dest(i, dest)
        } else {
            dest
        }
    }

    /// Outcome of the refund claim: the pot's owner signs, the lottery
    /// must have ended, the pot must be a losing pot (the winner must use
    /// the winner path), unclaimed, and the refund wallet must accept the
    /// transfer.
    pub open spec fn claim_token_result(
        self,
        caller: Addr,
        signer: bool,
        i: int,
        dest: TokenAccount,
    ) -> Result<(), LotteryError>
        recommends
            0 <= i < self.pots.len(),
    {
        if !(signer && caller == self.pots[i].owner) {
            Err(LotteryError::NotAuthorized)
        } else if self.lottery.state != LotteryState::Ended {
            Err(LotteryError::InvalidState)
        } else if self.lottery.winning_pot == Some(self.pots[i].owner) {
            Err(LotteryError::NotWinner)
        } else if self.pots[i].claimed {
            Err(LotteryError::AlreadyClaimed)
        } else if dest.mint != self.lottery.token_mint {
            Err(LotteryError::TransferFailed)
        } else if dest.balance + self.pots[i].deposit_amount > u64::MAX {
            Err(LotteryError::TransferFailed)
        } else {
            Ok(())
        }
    }

    /// Successor state of the refund claim.
    pub open spec fn claim_token_next(
        self,
        caller: Addr,
        signer: bool,
        i: int,
        dest: TokenAccount,
    ) -> EngineView {
        if self.claim_token_result(caller, signer, i, dest) is Ok {
            self.claim_settle(i)
        } else {
            self
        }
    }

    /// The refund wallet after the refund claim.
    pub open spec fn claim_token_next_dest(
        self,
        caller: Addr,
        signer: bool,
        i: int,
        dest: TokenAccount,
    ) -> TokenAccount {
        if self.claim_token_result(caller, signer, i, dest) is Ok {
            self.claim_dest(i, dest)
        } else {
            dest
        }
    }

    /// Outcome of rotating the authority: allowed in any non-terminal
    /// state, by the current authority only.
    pub open spec fn set_authority_result(self, caller: Addr, signer: bool) -> Result<
        (),
        LotteryError,
    > {
        if !self.authorized(caller, signer) {
            Err(LotteryError::NotAuthorized)
        } else if self.lottery.state == LotteryState::Ended {
            Err(LotteryError::InvalidState)
        } else {
            Ok(())
        }
    }

    /// Successor state of rotating the authority.  The rotation takes
    /// effect immediately: the old authority keeps no rights.
    pub open spec fn set_authority_next(
        self,
        caller: Addr,
        signer: bool,
        new_authority: Addr,
    ) -> EngineView {
        if self.set_authority_result(caller, signer) is Ok {
            EngineView { lottery: Lottery { authority: new_authority, ..self.lottery }, ..self }
        } else {
            self
        }
    }
}

// ---------------------------------------------------------------------------
// Creation.
// ---------------------------------------------------------------------------
/// The record a successful creation writes: a pending lottery controlled
/// by its creator, with no pots and no winner.
pub open spec fn created_lottery(
    token_mint: Addr,
    start_time: i64,
    end_time: i64,
    creator: Addr,
    bump: u8,
) -> Lottery {
    Lottery {
        authority: creator,
        token_mint,
        state: LotteryState::Pending,
        start_time,
        end_time,
        total_pot_count: 0,
        winning_pot: None,
        bump,
    }
}

/// Outcome of creating a lottery: the creator must sign, the derived
/// address must not already hold lottery data, and the mint reference must
/// not be malformed (the all-zero address).
pub open spec fn create_result(
    token_mint: Addr,
    start_time: i64,
    end_time: i64,
    creator: Addr,
    creator_is_signer: bool,
    already_initialized: bool,
    bump: u8,
) -> Result<Lottery, LotteryError> {
    if !creator_is_signer {
        Err(LotteryError::NotAuthorized)
    } else if already_initialized {
        Err(LotteryError::AlreadyInitialized)
    } else if token_mint == Addr::spec_zero() {
        Err(LotteryError::InvalidMint)
    } else {
        Ok(created_lottery(token_mint, start_time, end_time, creator, bump))
    }
}

/// Finds the pot holding ticket number `r` by walking the cumulative
/// ticket ranges.
fn ticket_holder_index(pots: &Vec<Pot>, r: u128) -> (w: usize)
    requires
        pots@.len() <= u64::MAX as int,
        (r as int) < total_tickets(pots@),
        r >= 0,
    ensures
        0 <= (w as int) < pots@.len(),
        cum_tickets(pots@, w as int) <= r as int,
        (r as int) < cum_tickets(pots@, w as int) + pots@[w as int].ticket_count,
{
    proof {
        lemma_total_tickets_nonneg(pots@);
        lemma_total_tickets_bound(pots@);
        assert((pots@.len() as int) * (u64::MAX as int) < 0x1_0000_0000_0000_0000_0000_0000_0000_0000)
            by (nonlinear_arith)
            requires
                0 <= pots@.len() as int <= u64::MAX as int,
        ;
    }
    let n = pots.len();
    let mut i: usize = 0;
    let mut acc: u128 = 0;
    while i < n
        invariant
            i <= n,
            n == pots@.len(),
            pots@.len() <= u64::MAX as int,
            (r as int) < total_tickets(pots@),
            total_tickets(pots@) < 0x1_0000_0000_0000_0000_0000_0000_0000_0000,
            acc as int == cum_tickets(pots@, i as int),
            acc as int <= r as int,
        decreases n - i,
    {
        let t = pots[i].ticket_count as u128;
        proof {
            lemma_cum_step(pots@, i as int);
            lemma_cum_mono(pots@, i as int + 1, pots@.len() as int);
            lemma_cum_all(pots@);
        }
        if r < acc + t {
            return i;
        }
        acc = acc + t;
        i = i + 1;
    }
    proof {
        lemma_cum_all(pots@);
        assert(false);
    }
    0
}

// ---------------------------------------------------------------------------
// The executable engine.
// ---------------------------------------------------------------------------
/// The explicit, typed request accompanying one instruction: the accounts
/// and readings the host resolved for it.  Fields an operation does not
/// use are ignored by it.
#[derive(Clone, Copy, Debug)]
pub struct Request {
    /// The signing account driving the operation: the authority for
    /// lifecycle and winner-payout calls, the participant for bids and
    /// refunds.
    pub caller: Addr,
    /// Whether `caller` actually signed the transaction.
    pub caller_is_signer: bool,
    /// The replacement authority, for an authority rotation.
    pub new_authority: Addr,
    /// The host-created empty escrow token account, for a first bid.
    pub escrow_account: TokenAccount,
    /// The index of the presented pot, for the two claim paths.
    pub pot_index: usize,
    /// The clock reading at execution time.
    pub now: i64,
}
/// One lottery with its pot ledger and escrow accounts.
pub struct Engine {
    /// The lottery account's own address.
    pub address: Addr,
    /// The lottery record.
    pub lottery: Lottery,
    /// One pot per participant, in creation order.
    pub pots: Vec<Pot>,
    /// The escrow token account of each pot, parallel to `pots`.
    pub escrows: Vec<TokenAccount>,
}

impl View for Engine {
    type V = EngineView;

    open spec fn view(&self) -> EngineView {
        EngineView {
            address: self.address,
            lottery: self.lottery,
            pots: self.pots@,
            escrows: self.escrows@,
        }
    }
}

impl Engine {
    /// Creates a lottery at `address` (derived by the host from the
    /// program and the creator-chosen seed, with nonce `bump`).
    /// `already_initialized` reports whether that address already holds
    /// lottery data.
    pub fn create(
        address: Addr,
        args: &CreateLotteryArgs,
        creator: Addr,
        creator_is_signer: bool,
        already_initialized: bool,
        bump: u8,
    ) -> (r: Result<Engine, LotteryError>)
        ensures
            match r {
                Ok(e) => {
                    &&& create_result(
                        args.token_mint,
                        args.start_time,
                        args.end_time,
                        creator,
                        creator_is_signer,
                        already_initialized,
                        bump,
                    ) == Ok::<Lottery, LotteryError>(e@.lottery)
                    &&& e@.address == address
                    &&& e@.pots == Seq::<Pot>::empty()
                    &&& e@.escrows == Seq::<TokenAccount>::empty()
                    &&& e@.wf()
                },
                Err(x) => create_result(
                    args.token_mint,
                    args.start_time,
                    args.end_time,
                    creator,
                    creator_is_signer,
                    already_initialized,
                    bump,
                ) == Err::<Lottery, LotteryError>(x),
            },
    {
        if !creator_is_signer {
            return Err(LotteryError::NotAuthorized);
        }
        if already_initialized {
            return Err(LotteryError::AlreadyInitialized);
        }
        if args.token_mint == Addr::zero() {
            return Err(LotteryError::InvalidMint);
        }
        let lottery = Lottery {
            authority: creator,
            token_mint: args.token_mint,
            state: LotteryState::Pending,
            start_time: args.start_time,
            end_time: args.end_time,
            total_pot_count: 0,
            winning_pot: None,
            bump,
        };
        Ok(Engine { address, lottery, pots: Vec::new(), escrows: Vec::new() })
    }

    /// Starts a pending lottery, stamping its effective start time.
    pub fn start(&mut self, caller: Addr, caller_is_signer: bool, now: i64) -> (r: Result<
        (),
        LotteryError,
    >)
        ensures
            r == old(self)@.start_result(caller, caller_is_signer),
            final(self)@ == old(self)@.start_next(caller, caller_is_signer, now),
            old(self)@.wf() ==> final(self)@.wf(),
    {
        if !(caller_is_signer && caller == self.lottery.authority) {
            return Err(LotteryError::NotAuthorized);
        }
        if self.lottery.state != LotteryState::Pending {
            return Err(LotteryError::InvalidState);
        }
        self.lottery.state = LotteryState::Active;
        self.lottery.start_time = now;
        proof {
            assert(self@ =~= old(self)@.start_next(caller, caller_is_signer, now));
            if old(self)@.wf() {
                assert forall|i: int| 0 <= i < self@.pots.len() implies #[trigger] self@.pot_ok(
                    i,
                ) by {
                    assert(old(self)@.pot_ok(i));
                }
            }
        }
        Ok(())
    }

    /// Finds the index of `owner`'s pot, scanning in creation order.
    pub fn find_pot(&self, owner: Addr) -> (r: Option<usize>)
        ensures
            match r {
                Some(i) => i < self@.pots.len() && self@.pots[i as int].owner == owner,
                None => !self@.has_pot(owner),
            },
    {
        let n = self.pots.len();
        let mut i: usize = 0;
        while i < n
            invariant
                i <= n,
                n == self@.pots.len(),
                forall|j: int| 0 <= j < i ==> (#[trigger] self@.pots[j]).owner != owner,
            decreases n - i,
        {
            if self.pots[i].owner == owner {
                return Some(i);
            }
            i = i + 1;
        }
        None
    }

    /// Places a bid: moves `amount` from the bidder's funding wallet into
    /// the bidder's escrow and issues one ticket.  On a first bid the
    /// host has created the empty escrow token account `escrow_account`
    /// for this lottery's mint at a fresh address.
    pub fn bid(
        &mut self,
        bidder: Addr,
        bidder_is_signer: bool,
        wallet: &mut TokenAccount,
        escrow_account: TokenAccount,
        amount: u64,
        now: i64,
    ) -> (r: Result<(), LotteryError>)
        requires
            old(self)@.wf(),
            old(self)@.external_account(old(wallet).address),
            !old(self)@.has_pot(bidder) ==> escrow_account.mint == old(self)@.lottery.token_mint
                && escrow_account.balance == 0 && old(self)@.external_account(
                escrow_account.address,
            ) && escrow_account.address != old(wallet).address,
        ensures
            r == old(self)@.bid_result(bidder, bidder_is_signer, *old(wallet), amount, now),
            final(self)@ == old(self)@.bid_next(
                bidder,
                bidder_is_signer,
                *old(wallet),
                escrow_account,
                amount,
                now,
            ),
            *final(wallet) == old(self)@.bid_next_wallet(
                bidder,
                bidder_is_signer,
                *old(wallet),
                amount,
                now,
            ),
            final(self)@.wf(),
    {
        if !bidder_is_signer {
            return Err(LotteryError::NotAuthorized);
        }
        if self.lottery.state != LotteryState::Active {
            return Err(LotteryError::LotteryNotActive);
        }
        if !(self.lottery.start_time <= now && now < self.lottery.end_time) {
            return Err(LotteryError::LotteryWindowClosed);
        }
        if wallet.mint != self.lottery.token_mint {
            return Err(LotteryError::TransferFailed);
        }
        if wallet.balance < amount {
            return Err(LotteryError::TransferFailed);
        }
        match self.find_pot(bidder) {
            Some(i) => {
                proof {
                    let oldv = old(self)@;
                    assert(oldv.pots[i as int].owner == bidder);
                    assert(oldv.has_pot(bidder));
                    let k = oldv.pot_index(bidder);
                    assert(0 <= k < oldv.pots.len() && oldv.pots[k].owner == bidder);
                    assert(k == i as int);
                    assert(oldv.pot_ok(i as int));
                    assert(!oldv.pots[i as int].claimed);
                }
                let p = self.pots[i];
                let e = self.escrows[i];
                if u64::MAX - amount < p.deposit_amount {
                    return Err(LotteryError::TransferFailed);
                }
                if p.ticket_count == u64::MAX {
                    return Err(LotteryError::TransferFailed);
                }
                self.pots.set(
                    i,
                    Pot {
                        deposit_amount: p.deposit_amount + amount,
                        ticket_count: p.ticket_count + 1,
                        ..p
                    },
                );
                self.escrows.set(i, TokenAccount { balance: e.balance + amount, ..e });
                wallet.balance = wallet.balance - amount;
                proof {
                    let oldv = old(self)@;
                    let newv = self@;
                    assert(newv =~= oldv.bid_next(
                        bidder,
                        bidder_is_signer,
                        *old(wallet),
                        escrow_account,
                        amount,
                        now,
                    ));
                    assert forall|k: int| 0 <= k < newv.pots.len() implies #[trigger] newv.pot_ok(
                        k,
                    ) by {
                        assert(oldv.pot_ok(k));
                    }
                    assert(newv.wf());
                }
                Ok(())
            },
            None => {
                if self.lottery.total_pot_count == u64::MAX {
                    return Err(LotteryError::TransferFailed);
                }
                proof {
                    let oldv = old(self)@;
                    assert forall|j: int| 0 <= j < oldv.pots.len() implies (
                    #[trigger] oldv.pots[j]).owner != bidder by {
                        if oldv.pots[j].owner == bidder {
                            assert(oldv.has_pot(bidder));
                        }
                    }
                }
                self.pots.push(
                    Pot {
                        lottery: self.address,
                        owner: bidder,
                        escrow_account: escrow_account.address,
                        deposit_amount: amount,
                        ticket_count: 1,
                        claimed: false,
                    },
                );
                self.escrows.push(
                    TokenAccount {
                        address: escrow_account.address,
                        mint: escrow_account.mint,
                        balance: amount,
                    },
                );
                self.lottery.total_pot_count = self.lottery.total_pot_count + 1;
                wallet.balance = wallet.balance - amount;
                proof {
                    let oldv = old(self)@;
                    let newv = self@;
                    assert(newv =~= oldv.bid_next(
                        bidder,
                        bidder_is_signer,
                        *old(wallet),
                        escrow_account,
                        amount,
                        now,
                    ));
                    assert forall|k: int| 0 <= k < newv.pots.len() implies #[trigger] newv.pot_ok(
                        k,
                    ) by {
                        if k < oldv.pots.len() {
                            assert(oldv.pot_ok(k));
                        }
                    }
                    assert(newv.wf());
                }
                Ok(())
            },
        }
    }

    /// Ends an active lottery: draws the winning ticket from the digest
    /// of the accumulated state and records the winning pot's owner.  The
    /// authority may end early, regardless of the window.
    pub fn end(&mut self, caller: Addr, caller_is_signer: bool) -> (r: Result<(), LotteryError>)
        requires
            old(self)@.wf(),
        ensures
            r == old(self)@.end_result(caller, caller_is_signer),
            final(self)@ == old(self)@.end_next(caller, caller_is_signer),
            final(self)@.wf(),
    {
        if !(caller_is_signer && caller == self.lottery.authority) {
            return Err(LotteryError::NotAuthorized);
        }
        if self.lottery.state != LotteryState::Active {
            return Err(LotteryError::InvalidState);
        }
        let n = self.pots.len();
        proof {
            lemma_total_tickets_nonneg(self@.pots);
            lemma_total_tickets_bound(self@.pots);
            assert((self@.pots.len() as int) * (u64::MAX as int)
                < 0x1_0000_0000_0000_0000_0000_0000_0000_0000) by (nonlinear_arith)
                requires
                    0 <= self@.pots.len() as int <= u64::MAX as int,
            ;
        }
        let mut total: u128 = 0;
        let mut i: usize = 0;
        while i < n
            invariant
                i <= n,
                n == self@.pots.len(),
                total_tickets(self@.pots) < 0x1_0000_0000_0000_0000_0000_0000_0000_0000,
                total as int == cum_tickets(self@.pots, i as int),
            decreases n - i,
        {
            proof {
                lemma_cum_step(self@.pots, i as int);
                lemma_cum_mono(self@.pots, i as int + 1, self@.pots.len() as int);
                lemma_cum_all(self@.pots);
                lemma_total_tickets_nonneg(self@.pots.take(i as int));
            }
            total = total + (self.pots[i].ticket_count as u128);
            i = i + 1;
        }
        proof {
            lemma_cum_all(self@.pots);
        }
        if total == 0 {
            return Err(LotteryError::NoParticipants);
        }
        let mut buf = encode_lottery(&self.lottery);
        let mut j: usize = 0;
        while j < n
            invariant
                j <= n,
                n == self@.pots.len(),
                buf@ == enc_lottery(self@.lottery) + enc_pots(self@.pots.take(j as int)),
            decreases n - j,
        {
            let pj = self.pots[j];
            let mut pb = encode_pot(&pj);
            buf.append(&mut pb);
            proof {
                assert(self@.pots.take(j as int + 1).drop_last() =~= self@.pots.take(j as int));
                assert(self@.pots.take(j as int + 1).last() == self@.pots[j as int]);
                assert(buf@ =~= enc_lottery(self@.lottery) + enc_pots(
                    self@.pots.take(j as int + 1),
                ));
            }
            j = j + 1;
        }
        proof {
            assert(self@.pots.take(n as int) =~= self@.pots);
            assert(buf@ == self@.draw_input());
        }
        let digest = sha256(&buf);
        let first8 = slice_subrange(digest.as_slice(), 0, 8);
        let x = u64_from_le_bytes(first8);
        let r128 = (x as u128) % total;
        proof {
            assert(r128 as int == self@.draw());
        }
        let w = ticket_holder_index(&self.pots, r128);
        proof {
            let v = old(self)@;
            assert(exists|i: int|
                0 <= i < v.pots.len() && #[trigger] cum_tickets(v.pots, i) <= v.draw()
                    < cum_tickets(v.pots, i) + v.pots[i].ticket_count) by {
                assert(cum_tickets(v.pots, w as int) <= v.draw() < cum_tickets(v.pots, w as int)
                    + v.pots[w as int].ticket_count);
            }
            let k = ticket_holder(v.pots, v.draw());
            assert(0 <= k < v.pots.len() && cum_tickets(v.pots, k) <= v.draw() < cum_tickets(
                v.pots,
                k,
            ) + v.pots[k].ticket_count);
            lemma_ticket_holder_unique(v.pots, v.draw(), k, w as int);
            assert(v.winner_of() == w as int);
        }
        let wp = self.pots[w].owner;
        self.lottery.state = LotteryState::Ended;
        self.lottery.winning_pot = Some(wp);
        proof {
            let oldv = old(self)@;
            let newv = self@;
            assert(newv =~= oldv.end_next(caller, caller_is_signer));
            assert forall|k: int| 0 <= k < newv.pots.len() implies #[trigger] newv.pot_ok(k) by {
                assert(oldv.pot_ok(k));
            }
            assert(newv.has_pot(wp)) by {
                assert(newv.pots[w as int].owner == wp);
            }
            assert(newv.wf());
        }
        Ok(())
    }

    /// Winner claim: the authority pays the winning pot's full deposit
    /// out of escrow to `destination`.
    pub fn claim_bid(
        &mut self,
        caller: Addr,
        caller_is_signer: bool,
        pot_index: usize,
        destination: &mut TokenAccount,
    ) -> (r: Result<(), LotteryError>)
        requires
            old(self)@.wf(),
            pot_index < old(self)@.pots.len(),
            old(self)@.external_account(old(destination).address),
        ensures
            r == old(self)@.claim_bid_result(
                caller,
                caller_is_signer,
                pot_index as int,
                *old(destination),
            ),
            final(self)@ == old(self)@.claim_bid_next(
                caller,
                caller_is_signer,
                pot_index as int,
                *old(destination),
            ),
            *final(destination) == old(self)@.claim_bid_next_dest(
                caller,
                caller_is_signer,
                pot_index as int,
                *old(destination),
            ),
            final(self)@.wf(),
    {
        if !(caller_is_signer && caller == self.lottery.authority) {
            return Err(LotteryError::NotAuthorized);
        }
        if self.lottery.state != LotteryState::Ended {
            return Err(LotteryError::InvalidState);
        }
        let p = self.pots[pot_index];
        let is_winner = match self.lottery.winning_pot {
            Some(w) => w == p.owner,
            None => false,
        };
        if !is_winner {
            return Err(LotteryError::NotWinner);
        }
        if p.claimed {
            return Err(LotteryError::AlreadyClaimed);
        }
        if destination.mint != self.lottery.token_mint {
            return Err(LotteryError::TransferFailed);
        }
        if u64::MAX - p.deposit_amount < destination.balance {
            return Err(LotteryError::TransferFailed);
        }
        let e = self.escrows[pot_index];
        self.pots.set(pot_index, Pot { claimed: true, ..p });
        self.escrows.set(pot_index, TokenAccount { balance: 0, ..e });
        destination.balance = destination.balance + p.deposit_amount;
        proof {
            self.lemma_settle_wf(old(self)@, pot_index as int);
            assert(self@ =~= old(self)@.claim_bid_next(
                caller,
                caller_is_signer,
                pot_index as int,
                *old(destination),
            ));
        }
        Ok(())
    }

    /// Refund claim: a losing participant reclaims their full deposit
    /// from escrow into their own wallet after the lottery has ended.
    pub fn claim_token(
        &mut self,
        caller: Addr,
        caller_is_signer: bool,
        pot_index: usize,
        destination: &mut TokenAccount,
    ) -> (r: Result<(), LotteryError>)
        requires
            old(self)@.wf(),
            pot_index < old(self)@.pots.len(),
            old(self)@.external_account(old(destination).address),
        ensures
            r == old(self)@.claim_token_result(
                caller,
                caller_is_signer,
                pot_index as int,
                *old(destination),
            ),
            final(self)@ == old(self)@.claim_token_next(
                caller,
                caller_is_signer,
                pot_index as int,
                *old(destination),
            ),
            *final(destination) == old(self)@.claim_token_next_dest(
                caller,
                caller_is_signer,
                pot_index as int,
                *old(destination),
            ),
            final(self)@.wf(),
    {
        let p = self.pots[pot_index];
        if !(caller_is_signer && caller == p.owner) {
            return Err(LotteryError::NotAuthorized);
        }
        if self.lottery.state != LotteryState::Ended {
            return Err(LotteryError::InvalidState);
        }
        let is_winner = match self.lottery.winning_pot {
            Some(w) => w == p.owner,
            None => false,
        };
        if is_winner {
            return Err(LotteryError::NotWinner);
        }
        if p.claimed {
            return Err(LotteryError::AlreadyClaimed);
        }
        if destination.mint != self.lottery.token_mint {
            return Err(LotteryError::TransferFailed);
        }
        if u64::MAX - p.deposit_amount < destination.balance {
            return Err(LotteryError::TransferFailed);
        }
        let e = self.escrows[pot_index];
        self.pots.set(pot_index, Pot { claimed: true, ..p });
        self.escrows.set(pot_index, TokenAccount { balance: 0, ..e });
        destination.balance = destination.balance + p.deposit_amount;
        proof {
            self.lemma_settle_wf(old(self)@, pot_index as int);
            assert(self@ =~= old(self)@.claim_token_next(
                caller,
                caller_is_signer,
                pot_index as int,
                *old(destination),
            ));
        }
        Ok(())
    }

    /// The single entrypoint: decodes one wire instruction and dispatches
    /// it.  A payload that does not decode changes nothing and reports
    /// `MalformedInput`; a `CreateLottery` instruction aimed at this
    /// already-existing lottery reports `AlreadyInitialized`.  `wallet`
    /// is the external token account of the operation: the funding wallet
    /// of a bid, the payout destination of a winner claim, the refund
    /// wallet of a refund claim; other operations leave it untouched.
    pub fn process(&mut self, input: &[u8], req: &Request, wallet: &mut TokenAccount) -> (r:
        Result<(), LotteryError>)
        requires
            old(self)@.wf(),
            old(self)@.external_account(old(wallet).address),
            (parse_instruction(input@) matches Some(InstructionView::ClaimBid { .. })
                ==> req.pot_index < old(self)@.pots.len()),
            (parse_instruction(input@) matches Some(InstructionView::ClaimToken { .. })
                ==> req.pot_index < old(self)@.pots.len()),
            ((parse_instruction(input@) matches Some(InstructionView::GetTicket { .. }))
                && !old(self)@.has_pot(req.caller)) ==> (req.escrow_account.mint
                == old(self)@.lottery.token_mint && req.escrow_account.balance == 0
                && old(self)@.external_account(req.escrow_account.address)
                && req.escrow_account.address != old(wallet).address),
        ensures
            final(self)@.wf(),
            ({
                let v = old(self)@;
                let w0 = *old(wallet);
                match parse_instruction(input@) {
                    None => r == Err::<(), LotteryError>(LotteryError::MalformedInput)
                        && final(self)@ == v && *final(wallet) == w0,
                    Some(iv) => match iv {
                        InstructionView::CreateLottery { .. } => r == Err::<(), LotteryError>(
                            LotteryError::AlreadyInitialized,
                        ) && final(self)@ == v && *final(wallet) == w0,
                        InstructionView::StartLottery { .. } => r == v.start_result(
                            req.caller,
                            req.caller_is_signer,
                        ) && final(self)@ == v.start_next(
                            req.caller,
                            req.caller_is_signer,
                            req.now,
                        ) && *final(wallet) == w0,
                        InstructionView::EndLottery { .. } => r == v.end_result(
                            req.caller,
                            req.caller_is_signer,
                        ) && final(self)@ == v.end_next(req.caller, req.caller_is_signer)
                            && *final(wallet) == w0,
                        InstructionView::SetAuthority => r == v.set_authority_result(
                            req.caller,
                            req.caller_is_signer,
                        ) && final(self)@ == v.set_authority_next(
                            req.caller,
                            req.caller_is_signer,
                            req.new_authority,
                        ) && *final(wallet) == w0,
                        InstructionView::GetTicket { amount } => r == v.bid_result(
                            req.caller,
                            req.caller_is_signer,
                            w0,
                            amount,
                            req.now,
                        ) && final(self)@ == v.bid_next(
                            req.caller,
                            req.caller_is_signer,
                            w0,
                            req.escrow_account,
                            amount,
                            req.now,
                        ) && *final(wallet) == v.bid_next_wallet(
                            req.caller,
                            req.caller_is_signer,
                            w0,
                            amount,
                            req.now,
                        ),
                        InstructionView::ClaimBid { .. } => r == v.claim_bid_result(
                            req.caller,
                            req.caller_is_signer,
                            req.pot_index as int,
                            w0,
                        ) && final(self)@ == v.claim_bid_next(
                            req.caller,
                            req.caller_is_signer,
                            req.pot_index as int,
                            w0,
                        ) && *final(wallet) == v.claim_bid_next_dest(
                            req.caller,
                            req.caller_is_signer,
                            req.pot_index as int,
                            w0,
                        ),
                        InstructionView::ClaimToken { .. } => r == v.claim_token_result(
                            req.caller,
                            req.caller_is_signer,
                            req.pot_index as int,
                            w0,
                        ) && final(self)@ == v.claim_token_next(
                            req.caller,
                            req.caller_is_signer,
                            req.pot_index as int,
                            w0,
                        ) && *final(wallet) == v.claim_token_next_dest(
                            req.caller,
                            req.caller_is_signer,
                            req.pot_index as int,
                            w0,
                        ),
                    },
                }
            }),
    {
        match decode_instruction(input) {
            None => Err(LotteryError::MalformedInput),
            Some(inst) => match inst {
                LotteryInstruction::CreateLottery(_) => Err(LotteryError::AlreadyInitialized),
                LotteryInstruction::StartLottery(_) => self.start(
                    req.caller,
                    req.caller_is_signer,
                    req.now,
                ),
                LotteryInstruction::EndLottery(_) => self.end(req.caller, req.caller_is_signer),
                LotteryInstruction::SetAuthority => self.set_authority(
                    req.caller,
                    req.caller_is_signer,
                    req.new_authority,
                ),
                LotteryInstruction::GetTicket(a) => self.bid(
                    req.caller,
                    req.caller_is_signer,
                    wallet,
                    req.escrow_account,
                    a.amount,
                    req.now,
                ),
                LotteryInstruction::ClaimBid(_) => self.claim_bid(
                    req.caller,
                    req.caller_is_signer,
                    req.pot_index,
                    wallet,
                ),
                LotteryInstruction::ClaimToken(_) => self.claim_token(
                    req.caller,
                    req.caller_is_signer,
                    req.pot_index,
                    wallet,
                ),
            },
        }
    }

    /// Settling one pot preserves well-formedness: shared by both claim
    /// paths.
    proof fn lemma_settle_wf(&self, oldv: EngineView, i: int)
        requires
            oldv.wf(),
            0 <= i < oldv.pots.len(),
            oldv.lottery.state == LotteryState::Ended,
            self@ == oldv.claim_settle(i),
        ensures
            self@.wf(),
    {
        let newv = self@;
        assert forall|k: int| 0 <= k < newv.pots.len() implies #[trigger] newv.pot_ok(k) by {
            assert(oldv.pot_ok(k));
        }
        assert(newv.lottery.winning_pot matches Some(w) && newv.has_pot(w)) by {
            let w = oldv.lottery.winning_pot.unwrap();
            let j = choose|j: int|
                0 <= j < oldv.pots.len() && (#[trigger] oldv.pots[j]).owner == w;
            assert(newv.pots[j].owner == w);
        }
    }

    /// Rotates the lottery's controlling authority.
    pub fn set_authority(
        &mut self,
        caller: Addr,
        caller_is_signer: bool,
        new_authority: Addr,
    ) -> (r: Result<(), LotteryError>)
        ensures
            r == old(self)@.set_authority_result(caller, caller_is_signer),
            final(self)@ == old(self)@.set_authority_next(caller, caller_is_signer, new_authority),
            old(self)@.wf() ==> final(self)@.wf(),
    {
        if !(caller_is_signer && caller == self.lottery.authority) {
            return Err(LotteryError::NotAuthorized);
        }
        if self.lottery.state == LotteryState::Ended {
            return Err(LotteryError::InvalidState);
        }
        self.lottery.authority = new_authority;
        proof {
            assert(self@ =~= old(self)@.set_authority_next(
                caller,
                caller_is_signer,
                new_authority,
            ));
            if old(self)@.wf() {
                assert forall|i: int| 0 <= i < self@.pots.len() implies #[trigger] self@.pot_ok(
                    i,
                ) by {
                    assert(old(self)@.pot_ok(i));
                }
            }
        }
        Ok(())
    }
}

} // verus!
