//! The engine's global laws, stated over the step functions and proved
//! once and for all: lifecycle monotonicity, single settlement per pot,
//! the escrow sum invariant, winner-path exclusivity, and the immediacy
//! of authority rotation.

use crate::addr::Addr;
use crate::engine::{sum_deposits, sum_escrow, EngineView};
use crate::error::LotteryError;
use crate::state::{LotteryState, Pot, TokenAccount};
use vstd::prelude::*;

verus! {

/// The lifecycle only moves forward.  Under any operation, `state` either
/// stays or steps along Pending → Active → Ended, and once a lottery has
/// ended, its record — winner included — never changes again.
pub proof fn lemma_state_monotonic(
    v: EngineView,
    caller: Addr,
    signer: bool,
    now: i64,
    new_authority: Addr,
    wallet: TokenAccount,
    escrow: TokenAccount,
    amount: u64,
    i: int,
    dest: TokenAccount,
)
    ensures
        v.start_next(caller, signer, now).lottery.state.rank() >= v.lottery.state.rank(),
        v.end_next(caller, signer).lottery.state.rank() >= v.lottery.state.rank(),
        ({
            let s2 = v.start_next(caller, signer, now).lottery.state;
            s2 == v.lottery.state || (v.lottery.state == LotteryState::Pending && s2
                == LotteryState::Active)
        }),
        ({
            let s2 = v.end_next(caller, signer).lottery.state;
            s2 == v.lottery.state || (v.lottery.state == LotteryState::Active && s2
                == LotteryState::Ended)
        }),
        v.set_authority_next(caller, signer, new_authority).lottery.state == v.lottery.state,
        v.bid_next(caller, signer, wallet, escrow, amount, now).lottery.state == v.lottery.state,
        v.claim_bid_next(caller, signer, i, dest).lottery.state == v.lottery.state,
        v.claim_token_next(caller, signer, i, dest).lottery.state == v.lottery.state,
        v.lottery.state == LotteryState::Ended ==> v.start_next(
            caller,
            signer,
            now,
        ).lottery == v.lottery && v.end_next(caller, signer).lottery == v.lottery
            && v.set_authority_next(caller, signer, new_authority).lottery == v.lottery
            && v.bid_next(caller, signer, wallet, escrow, amount, now).lottery == v.lottery
            && v.claim_bid_next(caller, signer, i, dest).lottery == v.lottery
            && v.claim_token_next(caller, signer, i, dest).lottery == v.lottery,
{
}

/// Illegal lifecycle transitions are rejected with `InvalidState`, and
/// reject without mutating: starting anything but a pending lottery, and
/// ending anything but an active one, even for the authority itself.
pub proof fn lemma_illegal_transition_rejected(v: EngineView, caller: Addr, signer: bool, now: i64)
    requires
        v.authorized(caller, signer),
    ensures
        v.lottery.state != LotteryState::Pending ==> v.start_result(caller, signer) == Err::<
            (),
            LotteryError,
        >(LotteryError::InvalidState) && v.start_next(caller, signer, now) == v,
        v.lottery.state != LotteryState::Active ==> v.end_result(caller, signer) == Err::<
            (),
            LotteryError,
        >(LotteryError::InvalidState) && v.end_next(caller, signer) == v,
{
}

/// A pot settles at most once.  A successful claim — on either path —
/// finds the pot unclaimed and leaves it claimed; after that, a repeat of
/// the matching claim by the same rightful claimant fails with
/// `AlreadyClaimed`, and the other path rejects the pot with `NotWinner`.
pub proof fn lemma_claim_at_most_once(
    v: EngineView,
    caller: Addr,
    signer: bool,
    i: int,
    dest: TokenAccount,
    caller2: Addr,
    signer2: bool,
    dest2: TokenAccount,
)
    requires
        0 <= i < v.pots.len(),
    ensures
        v.claim_bid_result(caller, signer, i, dest) is Ok ==> !v.pots[i].claimed,
        v.claim_token_result(caller, signer, i, dest) is Ok ==> !v.pots[i].claimed,
        v.claim_bid_result(caller, signer, i, dest) is Ok ==> ({
            let v2 = v.claim_bid_next(caller, signer, i, dest);
            &&& v2.pots[i].claimed
            &&& (v2.authorized(caller2, signer2) ==> v2.claim_bid_result(caller2, signer2, i, dest2)
                == Err::<(), LotteryError>(LotteryError::AlreadyClaimed))
            &&& (signer2 && caller2 == v2.pots[i].owner ==> v2.claim_token_result(
                caller2,
                signer2,
                i,
                dest2,
            ) == Err::<(), LotteryError>(LotteryError::NotWinner))
        }),
        v.claim_token_result(caller, signer, i, dest) is Ok ==> ({
            let v2 = v.claim_token_next(caller, signer, i, dest);
            &&& v2.pots[i].claimed
            &&& (signer2 && caller2 == v2.pots[i].owner ==> v2.claim_token_result(
                caller2,
                signer2,
                i,
                dest2,
            ) == Err::<(), LotteryError>(LotteryError::AlreadyClaimed))
            &&& (v2.authorized(caller2, signer2) ==> v2.claim_bid_result(caller2, signer2, i, dest2)
                == Err::<(), LotteryError>(LotteryError::NotWinner))
        }),
{
}

/// No operation ever clears a `claimed` flag: settlement is irreversible.
pub proof fn lemma_claimed_irreversible(
    v: EngineView,
    caller: Addr,
    signer: bool,
    now: i64,
    new_authority: Addr,
    wallet: TokenAccount,
    escrow: TokenAccount,
    amount: u64,
    i: int,
    dest: TokenAccount,
    k: int,
)
    requires
        0 <= k < v.pots.len(),
        v.pots[k].claimed,
    ensures
        v.start_next(caller, signer, now).pots[k].claimed,
        v.end_next(caller, signer).pots[k].claimed,
        v.set_authority_next(caller, signer, new_authority).pots[k].claimed,
        v.bid_next(caller, signer, wallet, escrow, amount, now).pots[k].claimed,
        0 <= i < v.pots.len() ==> v.claim_bid_next(caller, signer, i, dest).pots[k].claimed,
        0 <= i < v.pots.len() ==> v.claim_token_next(caller, signer, i, dest).pots[k].claimed,
{
}

/// Pointwise custody equality gives equal sums, by induction over the
/// parallel ledgers.
proof fn lemma_sum_pointwise(pots: Seq<Pot>, escrows: Seq<TokenAccount>)
    requires
        pots.len() == escrows.len(),
        forall|i: int|
            0 <= i < pots.len() ==> (#[trigger] pots[i]).deposit_amount == escrows[i].balance,
    ensures
        sum_deposits(pots) == sum_escrow(escrows),
    decreases pots.len(),
{
    if pots.len() > 0 {
        lemma_sum_pointwise(pots.drop_last(), escrows.drop_last());
    }
}

/// While no pot is settled, the recorded deposits sum to exactly the
/// tokens resident in the escrow accounts.
pub proof fn lemma_escrow_sum_unclaimed(v: EngineView)
    requires
        v.wf(),
        forall|i: int| 0 <= i < v.pots.len() ==> !(#[trigger] v.pots[i]).claimed,
    ensures
        sum_deposits(v.pots) == sum_escrow(v.escrows),
{
    assert forall|i: int|
        0 <= i < v.pots.len() implies (#[trigger] v.pots[i]).deposit_amount
            == v.escrows[i].balance by {
        assert(v.pot_ok(i));
    }
    lemma_sum_pointwise(v.pots, v.escrows);
}

/// Before settlement begins — in any state short of `Ended` — the sum of
/// all recorded deposits equals the sum of all escrowed tokens.
pub proof fn lemma_escrow_sum_before_settlement(v: EngineView)
    requires
        v.wf(),
        v.lottery.state != LotteryState::Ended,
    ensures
        sum_deposits(v.pots) == sum_escrow(v.escrows),
{
    lemma_escrow_sum_unclaimed(v);
}

/// Only the pot recorded as the winner can pass the winner path: every
/// other pot is rejected with `NotWinner`, unchanged, even when the
/// authority itself presents it.
pub proof fn lemma_only_winner_claims(
    v: EngineView,
    caller: Addr,
    signer: bool,
    i: int,
    dest: TokenAccount,
)
    requires
        0 <= i < v.pots.len(),
        v.authorized(caller, signer),
        v.lottery.state == LotteryState::Ended,
        v.lottery.winning_pot != Some(v.pots[i].owner),
    ensures
        v.claim_bid_result(caller, signer, i, dest) == Err::<(), LotteryError>(
            LotteryError::NotWinner,
        ),
        v.claim_bid_next(caller, signer, i, dest) == v,
{
}

/// Authority rotation takes effect immediately: the moment a rotation
/// succeeds, every authority-gated operation signed by the replaced
/// authority fails with `NotAuthorized`.
pub proof fn lemma_rotation_immediate(
    v: EngineView,
    caller: Addr,
    new_authority: Addr,
    now: i64,
    i: int,
    dest: TokenAccount,
)
    requires
        v.set_authority_result(caller, true) is Ok,
        new_authority != caller,
    ensures
        ({
            let v2 = v.set_authority_next(caller, true, new_authority);
            &&& v2.lottery.authority == new_authority
            &&& v2.start_result(caller, true) == Err::<(), LotteryError>(
                LotteryError::NotAuthorized,
            )
            &&& v2.end_result(caller, true) == Err::<(), LotteryError>(LotteryError::NotAuthorized)
            &&& v2.set_authority_result(caller, true) == Err::<(), LotteryError>(
                LotteryError::NotAuthorized,
            )
            &&& v2.claim_bid_result(caller, true, i, dest) == Err::<(), LotteryError>(
                LotteryError::NotAuthorized,
            )
        }),
{
}

/// A bid at or past `end_time` is rejected with `LotteryWindowClosed`,
/// unchanged, even while the lottery is still `Active`.
pub proof fn lemma_window_boundary(
    v: EngineView,
    bidder: Addr,
    wallet: TokenAccount,
    escrow: TokenAccount,
    amount: u64,
    now: i64,
)
    requires
        v.lottery.state == LotteryState::Active,
        now >= v.lottery.end_time,
    ensures
        v.bid_result(bidder, true, wallet, amount, now) == Err::<(), LotteryError>(
            LotteryError::LotteryWindowClosed,
        ),
        v.bid_next(bidder, true, wallet, escrow, amount, now) == v,
        v.bid_next_wallet(bidder, true, wallet, amount, now) == wallet,
{
}

} // verus!
