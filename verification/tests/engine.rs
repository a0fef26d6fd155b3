use lottery_core::addr::Addr;
use lottery_core::engine::{Engine, Request};
use lottery_core::error::LotteryError;
use lottery_core::instruction::{CreateLotteryArgs, GetTicketArgs, LotteryInstruction};
use lottery_core::state::{LotteryState, TokenAccount};

fn addr(n: u64) -> Addr {
    Addr::new(n, 0, 0, 0)
}

const MINT: u64 = 77;
const AUTHORITY: u64 = 1;

fn args() -> CreateLotteryArgs {
    CreateLotteryArgs {
        token_mint: addr(MINT),
        start_time: 100,
        end_time: 200,
        seed: b"demo".to_vec(),
    }
}

fn fresh_engine() -> Engine {
    Engine::create(addr(9), &args(), addr(AUTHORITY), true, false, 251).unwrap()
}

fn wallet(address: u64, balance: u64) -> TokenAccount {
    TokenAccount { address: addr(address), mint: addr(MINT), balance }
}

fn escrow(address: u64) -> TokenAccount {
    TokenAccount { address: addr(address), mint: addr(MINT), balance: 0 }
}

#[test]
fn create_pending_lottery() {
    let e = fresh_engine();
    assert_eq!(e.lottery.state, LotteryState::Pending);
    assert_eq!(e.lottery.authority, addr(AUTHORITY));
    assert_eq!(e.lottery.token_mint, addr(MINT));
    assert_eq!(e.lottery.start_time, 100);
    assert_eq!(e.lottery.end_time, 200);
    assert_eq!(e.lottery.total_pot_count, 0);
    assert!(e.lottery.winning_pot.is_none());
    assert_eq!(e.lottery.bump, 251);
    assert_eq!(e.pots.len(), 0);
}

#[test]
fn create_requires_signer() {
    let r = Engine::create(addr(9), &args(), addr(AUTHORITY), false, false, 251);
    assert!(matches!(r, Err(LotteryError::NotAuthorized)));
}

#[test]
fn create_rejects_existing_address() {
    let r = Engine::create(addr(9), &args(), addr(AUTHORITY), true, true, 251);
    assert!(matches!(r, Err(LotteryError::AlreadyInitialized)));
}

#[test]
fn create_rejects_zero_mint() {
    let mut a = args();
    a.token_mint = Addr::zero();
    let r = Engine::create(addr(9), &a, addr(AUTHORITY), true, false, 251);
    assert!(matches!(r, Err(LotteryError::InvalidMint)));
}

#[test]
fn start_requires_authority() {
    let mut e = fresh_engine();
    assert_eq!(e.start(addr(2), true, 100), Err(LotteryError::NotAuthorized));
    assert_eq!(e.start(addr(AUTHORITY), false, 100), Err(LotteryError::NotAuthorized));
    assert_eq!(e.lottery.state, LotteryState::Pending);
    assert_eq!(e.start(addr(AUTHORITY), true, 100), Ok(()));
    assert_eq!(e.lottery.state, LotteryState::Active);
}

#[test]
fn start_stamps_effective_start_time() {
    let mut e = fresh_engine();
    assert_eq!(e.start(addr(AUTHORITY), true, 42), Ok(()));
    assert_eq!(e.lottery.start_time, 42);
}

#[test]
fn start_twice_is_invalid_state() {
    let mut e = fresh_engine();
    e.start(addr(AUTHORITY), true, 100).unwrap();
    assert_eq!(e.start(addr(AUTHORITY), true, 100), Err(LotteryError::InvalidState));
    assert_eq!(e.lottery.state, LotteryState::Active);
}

#[test]
fn end_on_pending_is_invalid_state() {
    let mut e = fresh_engine();
    assert_eq!(e.end(addr(AUTHORITY), true), Err(LotteryError::InvalidState));
    assert_eq!(e.lottery.state, LotteryState::Pending);
}

#[test]
fn end_without_participants_fails() {
    let mut e = fresh_engine();
    e.start(addr(AUTHORITY), true, 100).unwrap();
    assert_eq!(e.end(addr(AUTHORITY), true), Err(LotteryError::NoParticipants));
    assert_eq!(e.lottery.state, LotteryState::Active);
}

#[test]
fn bid_on_pending_lottery_fails() {
    let mut e = fresh_engine();
    let mut w = wallet(30, 500);
    let r = e.bid(addr(3), true, &mut w, escrow(40), 100, 150);
    assert_eq!(r, Err(LotteryError::LotteryNotActive));
    assert_eq!(w.balance, 500);
}

#[test]
fn bid_requires_signer() {
    let mut e = fresh_engine();
    e.start(addr(AUTHORITY), true, 100).unwrap();
    let mut w = wallet(30, 500);
    let r = e.bid(addr(3), false, &mut w, escrow(40), 100, 150);
    assert_eq!(r, Err(LotteryError::NotAuthorized));
}

#[test]
fn bid_at_end_time_is_window_closed() {
    let mut e = fresh_engine();
    e.start(addr(AUTHORITY), true, 100).unwrap();
    let mut w = wallet(30, 500);
    // Exactly at end_time: still Active, but the window is closed.
    assert_eq!(e.lottery.state, LotteryState::Active);
    let r = e.bid(addr(3), true, &mut w, escrow(40), 100, 200);
    assert_eq!(r, Err(LotteryError::LotteryWindowClosed));
    let r = e.bid(addr(3), true, &mut w, escrow(40), 100, 250);
    assert_eq!(r, Err(LotteryError::LotteryWindowClosed));
    assert_eq!(w.balance, 500);
    assert_eq!(e.pots.len(), 0);
}

#[test]
fn bid_with_insufficient_funds_fails() {
    let mut e = fresh_engine();
    e.start(addr(AUTHORITY), true, 100).unwrap();
    let mut w = wallet(30, 99);
    let r = e.bid(addr(3), true, &mut w, escrow(40), 100, 150);
    assert_eq!(r, Err(LotteryError::TransferFailed));
    assert_eq!(w.balance, 99);
}

#[test]
fn bid_with_wrong_mint_fails() {
    let mut e = fresh_engine();
    e.start(addr(AUTHORITY), true, 100).unwrap();
    let mut w = TokenAccount { address: addr(30), mint: addr(MINT + 1), balance: 500 };
    let r = e.bid(addr(3), true, &mut w, escrow(40), 100, 150);
    assert_eq!(r, Err(LotteryError::TransferFailed));
}

#[test]
fn bid_overflow_is_transfer_failed() {
    let mut e = fresh_engine();
    e.start(addr(AUTHORITY), true, 100).unwrap();
    let mut w = wallet(30, u64::MAX);
    assert_eq!(e.bid(addr(3), true, &mut w, escrow(40), u64::MAX, 150), Ok(()));
    let mut w2 = wallet(31, 10);
    let r = e.bid(addr(3), true, &mut w2, escrow(41), 1, 150);
    assert_eq!(r, Err(LotteryError::TransferFailed));
    assert_eq!(e.pots[0].deposit_amount, u64::MAX);
}

#[test]
fn first_and_repeat_bids_accumulate() {
    let mut e = fresh_engine();
    e.start(addr(AUTHORITY), true, 100).unwrap();
    let mut w = wallet(30, 500);
    assert_eq!(e.bid(addr(3), true, &mut w, escrow(40), 100, 150), Ok(()));
    assert_eq!(e.pots.len(), 1);
    assert_eq!(e.lottery.total_pot_count, 1);
    assert_eq!(e.pots[0].owner, addr(3));
    assert_eq!(e.pots[0].deposit_amount, 100);
    assert_eq!(e.pots[0].ticket_count, 1);
    assert!(!e.pots[0].claimed);
    assert_eq!(e.escrows[0].balance, 100);
    assert_eq!(w.balance, 400);
    // A repeat bid tops up the same pot: additive, not idempotent.
    assert_eq!(e.bid(addr(3), true, &mut w, escrow(41), 100, 160), Ok(()));
    assert_eq!(e.pots.len(), 1);
    assert_eq!(e.lottery.total_pot_count, 1);
    assert_eq!(e.pots[0].deposit_amount, 200);
    assert_eq!(e.pots[0].ticket_count, 2);
    assert_eq!(e.escrows[0].balance, 200);
    assert_eq!(w.balance, 300);
    // The escrow account recorded on the pot is the first bid's.
    assert_eq!(e.pots[0].escrow_account, addr(40));
}

#[test]
fn deposits_match_escrow_balances_before_settlement() {
    let mut e = fresh_engine();
    e.start(addr(AUTHORITY), true, 100).unwrap();
    let mut wa = wallet(30, 300);
    let mut wb = wallet(31, 50);
    e.bid(addr(3), true, &mut wa, escrow(40), 100, 150).unwrap();
    e.bid(addr(4), true, &mut wb, escrow(41), 50, 155).unwrap();
    e.bid(addr(3), true, &mut wa, escrow(42), 25, 160).unwrap();
    let deposits: u64 = e.pots.iter().map(|p| p.deposit_amount).sum();
    let resident: u64 = e.escrows.iter().map(|t| t.balance).sum();
    assert_eq!(deposits, 175);
    assert_eq!(deposits, resident);
}

#[test]
fn end_to_end_settlement() {
    // Create lottery with mint M and window [100, 200); A bids 100, B bids 50;
    // the authority ends it; the winner is paid out, the loser refunded; every
    // further claim fails with AlreadyClaimed.
    let mut e = fresh_engine();
    e.start(addr(AUTHORITY), true, 100).unwrap();
    let a = addr(3);
    let b = addr(4);
    let mut wa = wallet(30, 100);
    let mut wb = wallet(31, 50);
    assert_eq!(e.bid(a, true, &mut wa, escrow(40), 100, 150), Ok(()));
    assert_eq!(e.bid(b, true, &mut wb, escrow(41), 50, 160), Ok(()));
    assert_eq!(e.pots[0].deposit_amount, 100);
    assert_eq!(e.pots[0].ticket_count, 1);
    assert_eq!(e.pots[1].deposit_amount, 50);
    assert_eq!(e.pots[1].ticket_count, 1);
    assert_eq!(e.end(addr(AUTHORITY), true), Ok(()));
    assert_eq!(e.lottery.state, LotteryState::Ended);
    let winner_owner = e.lottery.winning_pot.expect("an ended lottery records its winner");
    let (wi, li) = if winner_owner == a { (0usize, 1usize) } else { (1usize, 0usize) };
    let winner_deposit = e.pots[wi].deposit_amount;
    let loser_deposit = e.pots[li].deposit_amount;

    // Winner path: authority pays the winning pot out to a destination.
    let mut dest = wallet(32, 0);
    assert_eq!(e.claim_bid(addr(AUTHORITY), true, wi, &mut dest), Ok(()));
    assert_eq!(dest.balance, winner_deposit);
    assert!(e.pots[wi].claimed);
    assert_eq!(e.escrows[wi].balance, 0);

    // Refund path: the losing participant reclaims their deposit.
    let loser = e.pots[li].owner;
    let mut refund = TokenAccount { address: addr(33), mint: addr(MINT), balance: 0 };
    assert_eq!(e.claim_token(loser, true, li, &mut refund), Ok(()));
    assert_eq!(refund.balance, loser_deposit);
    assert!(e.pots[li].claimed);
    assert_eq!(e.escrows[li].balance, 0);

    // Any further claim on either pot fails with AlreadyClaimed.
    let mut again = wallet(34, 0);
    assert_eq!(
        e.claim_bid(addr(AUTHORITY), true, wi, &mut again),
        Err(LotteryError::AlreadyClaimed)
    );
    assert_eq!(e.claim_token(loser, true, li, &mut again), Err(LotteryError::AlreadyClaimed));
    assert_eq!(again.balance, 0);
}

#[test]
fn only_winner_passes_winner_path() {
    let mut e = fresh_engine();
    e.start(addr(AUTHORITY), true, 100).unwrap();
    let mut wa = wallet(30, 100);
    let mut wb = wallet(31, 50);
    e.bid(addr(3), true, &mut wa, escrow(40), 100, 150).unwrap();
    e.bid(addr(4), true, &mut wb, escrow(41), 50, 160).unwrap();
    e.end(addr(AUTHORITY), true).unwrap();
    let winner_owner = e.lottery.winning_pot.unwrap();
    let (wi, li) = if winner_owner == addr(3) { (0usize, 1usize) } else { (1usize, 0usize) };
    let mut dest = wallet(32, 0);
    // The losing pot must not pass the winner path.
    assert_eq!(
        e.claim_bid(addr(AUTHORITY), true, li, &mut dest),
        Err(LotteryError::NotWinner)
    );
    // The winning pot must not pass the refund path.
    let winner = e.pots[wi].owner;
    assert_eq!(e.claim_token(winner, true, wi, &mut dest), Err(LotteryError::NotWinner));
    assert_eq!(dest.balance, 0);
    assert!(!e.pots[wi].claimed);
    assert!(!e.pots[li].claimed);
}

#[test]
fn claims_require_ended_lottery() {
    let mut e = fresh_engine();
    e.start(addr(AUTHORITY), true, 100).unwrap();
    let mut w = wallet(30, 100);
    e.bid(addr(3), true, &mut w, escrow(40), 100, 150).unwrap();
    let mut dest = wallet(32, 0);
    assert_eq!(e.claim_bid(addr(AUTHORITY), true, 0, &mut dest), Err(LotteryError::InvalidState));
    assert_eq!(e.claim_token(addr(3), true, 0, &mut dest), Err(LotteryError::InvalidState));
}

#[test]
fn claim_paths_check_their_signer() {
    let mut e = fresh_engine();
    e.start(addr(AUTHORITY), true, 100).unwrap();
    let mut w = wallet(30, 100);
    e.bid(addr(3), true, &mut w, escrow(40), 100, 150).unwrap();
    e.end(addr(AUTHORITY), true).unwrap();
    let mut dest = wallet(32, 0);
    // Winner path: only the authority.
    assert_eq!(e.claim_bid(addr(3), true, 0, &mut dest), Err(LotteryError::NotAuthorized));
    assert_eq!(
        e.claim_bid(addr(AUTHORITY), false, 0, &mut dest),
        Err(LotteryError::NotAuthorized)
    );
    // Refund path: only the pot's owner.
    assert_eq!(e.claim_token(addr(5), true, 0, &mut dest), Err(LotteryError::NotAuthorized));
    assert_eq!(e.claim_token(addr(3), false, 0, &mut dest), Err(LotteryError::NotAuthorized));
}

#[test]
fn authority_rotation_is_immediate() {
    let mut e = fresh_engine();
    let old_authority = addr(AUTHORITY);
    let new_authority = addr(8);
    assert_eq!(e.set_authority(old_authority, true, new_authority), Ok(()));
    assert_eq!(e.lottery.authority, new_authority);
    // Operations signed by the old authority now fail.
    assert_eq!(e.start(old_authority, true, 100), Err(LotteryError::NotAuthorized));
    assert_eq!(
        e.set_authority(old_authority, true, old_authority),
        Err(LotteryError::NotAuthorized)
    );
    assert_eq!(e.end(old_authority, true), Err(LotteryError::NotAuthorized));
    // And the new authority's operations succeed.
    assert_eq!(e.start(new_authority, true, 100), Ok(()));
}

#[test]
fn rotation_rejected_after_end() {
    let mut e = fresh_engine();
    e.start(addr(AUTHORITY), true, 100).unwrap();
    let mut w = wallet(30, 100);
    e.bid(addr(3), true, &mut w, escrow(40), 100, 150).unwrap();
    e.end(addr(AUTHORITY), true).unwrap();
    assert_eq!(
        e.set_authority(addr(AUTHORITY), true, addr(8)),
        Err(LotteryError::InvalidState)
    );
}

#[test]
fn winner_draw_matches_host_hash() {
    // Recompute the draw outside the engine with the host's own hasher:
    // digest of (lottery record ++ pot records), first eight bytes
    // little-endian, modulo total tickets.
    let mut e = fresh_engine();
    e.start(addr(AUTHORITY), true, 100).unwrap();
    let mut wa = wallet(30, 100);
    let mut wb = wallet(31, 50);
    e.bid(addr(3), true, &mut wa, escrow(40), 100, 150).unwrap();
    e.bid(addr(4), true, &mut wb, escrow(41), 50, 160).unwrap();
    let mut input = lottery_core::codec::encode_lottery(&e.lottery);
    for p in e.pots.iter() {
        input.extend_from_slice(&lottery_core::codec::encode_pot(p));
    }
    let digest = solana_program::hash::hash(&input).to_bytes();
    let mut first8 = [0u8; 8];
    first8.copy_from_slice(&digest[0..8]);
    let ticket = u64::from_le_bytes(first8) % 2;
    let expected_winner = if ticket == 0 { addr(3) } else { addr(4) };
    e.end(addr(AUTHORITY), true).unwrap();
    assert_eq!(e.lottery.winning_pot, Some(expected_winner));
}

#[test]
fn process_rejects_malformed_input() {
    let mut e = fresh_engine();
    let req = Request {
        caller: addr(AUTHORITY),
        caller_is_signer: true,
        new_authority: addr(0),
        escrow_account: escrow(40),
        pot_index: 0,
        now: 100,
    };
    let mut w = wallet(30, 500);
    // Unknown tag.
    assert_eq!(e.process(&[9u8], &req, &mut w), Err(LotteryError::MalformedInput));
    // Empty payload.
    assert_eq!(e.process(&[], &req, &mut w), Err(LotteryError::MalformedInput));
    // Trailing garbage after a valid instruction.
    assert_eq!(e.process(&[5u8, 0u8], &req, &mut w), Err(LotteryError::MalformedInput));
    assert_eq!(e.lottery.state, LotteryState::Pending);
}

#[test]
fn process_dispatches_instructions() {
    let mut e = fresh_engine();
    let authority_req = Request {
        caller: addr(AUTHORITY),
        caller_is_signer: true,
        new_authority: addr(0),
        escrow_account: escrow(40),
        pot_index: 0,
        now: 100,
    };
    let mut w = wallet(30, 500);
    // CreateLottery against an existing lottery: already initialized.
    let create = lottery_core::codec::encode_instruction(&LotteryInstruction::CreateLottery(
        args(),
    ));
    assert_eq!(
        e.process(&create, &authority_req, &mut w),
        Err(LotteryError::AlreadyInitialized)
    );
    // Start.
    let start = lottery_core::codec::encode_instruction(&LotteryInstruction::StartLottery(
        lottery_core::instruction::StartLotteryArgs { bump: 251 },
    ));
    assert_eq!(e.process(&start, &authority_req, &mut w), Ok(()));
    assert_eq!(e.lottery.state, LotteryState::Active);
    // A bid through the entrypoint.
    let bid = lottery_core::codec::encode_instruction(&LotteryInstruction::GetTicket(
        GetTicketArgs { amount: 100 },
    ));
    let bidder_req = Request {
        caller: addr(3),
        caller_is_signer: true,
        new_authority: addr(0),
        escrow_account: escrow(40),
        pot_index: 0,
        now: 150,
    };
    assert_eq!(e.process(&bid, &bidder_req, &mut w), Ok(()));
    assert_eq!(e.pots.len(), 1);
    assert_eq!(e.pots[0].deposit_amount, 100);
    assert_eq!(w.balance, 400);
    // End, then settle the single (winning) pot through the entrypoint.
    let end = lottery_core::codec::encode_instruction(&LotteryInstruction::EndLottery(
        lottery_core::instruction::EndLotteryArgs { bump: 251 },
    ));
    assert_eq!(e.process(&end, &authority_req, &mut w), Ok(()));
    assert_eq!(e.lottery.state, LotteryState::Ended);
    assert_eq!(e.lottery.winning_pot, Some(addr(3)));
    let claim = lottery_core::codec::encode_instruction(&LotteryInstruction::ClaimBid(
        lottery_core::instruction::ClaimBidArgs { pot_bump: 0 },
    ));
    let mut dest = wallet(35, 0);
    assert_eq!(e.process(&claim, &authority_req, &mut dest), Ok(()));
    assert_eq!(dest.balance, 100);
    assert!(e.pots[0].claimed);
}

#[test]
fn process_set_authority() {
    let mut e = fresh_engine();
    let req = Request {
        caller: addr(AUTHORITY),
        caller_is_signer: true,
        new_authority: addr(8),
        escrow_account: escrow(40),
        pot_index: 0,
        now: 100,
    };
    let mut w = wallet(30, 0);
    let rotate = lottery_core::codec::encode_instruction(&LotteryInstruction::SetAuthority);
    assert_eq!(e.process(&rotate, &req, &mut w), Ok(()));
    assert_eq!(e.lottery.authority, addr(8));
    // The old authority is out, immediately.
    assert_eq!(e.process(&rotate, &req, &mut w), Err(LotteryError::NotAuthorized));
}
