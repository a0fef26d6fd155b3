use lottery_core::addr::Addr;
use lottery_core::codec::{
    decode_instruction, decode_lottery, decode_pot, encode_instruction, encode_lottery,
    encode_pot,
};
use lottery_core::instruction::{
    ClaimBidArgs, ClaimTokenArgs, CreateLotteryArgs, EndLotteryArgs, GetTicketArgs,
    LotteryInstruction, StartLotteryArgs,
};
use lottery_core::state::{Lottery, LotteryState, Pot};

fn addr(w0: u64, w1: u64, w2: u64, w3: u64) -> Addr {
    Addr::new(w0, w1, w2, w3)
}

fn sample_lottery() -> Lottery {
    Lottery {
        authority: addr(1, 2, 3, 4),
        token_mint: addr(5, 6, 7, 8),
        state: LotteryState::Active,
        start_time: 100,
        end_time: -7,
        total_pot_count: 9,
        winning_pot: None,
        bump: 254,
    }
}

fn sample_pot() -> Pot {
    Pot {
        lottery: addr(1, 2, 3, 4),
        owner: addr(9, 10, 11, 12),
        escrow_account: addr(13, 14, 15, 16),
        deposit_amount: 12345,
        ticket_count: 3,
        claimed: true,
    }
}

#[test]
fn lottery_record_round_trips() {
    let l = sample_lottery();
    let bytes = encode_lottery(&l);
    assert_eq!(bytes.len(), 91);
    let back = decode_lottery(&bytes).expect("a well-formed record decodes");
    assert_eq!(back.authority, l.authority);
    assert_eq!(back.token_mint, l.token_mint);
    assert_eq!(back.state, l.state);
    assert_eq!(back.start_time, l.start_time);
    assert_eq!(back.end_time, l.end_time);
    assert_eq!(back.total_pot_count, l.total_pot_count);
    assert_eq!(back.winning_pot, l.winning_pot);
    assert_eq!(back.bump, l.bump);
}

#[test]
fn lottery_record_with_winner_round_trips() {
    let mut l = sample_lottery();
    l.state = LotteryState::Ended;
    l.winning_pot = Some(addr(21, 22, 23, 24));
    let bytes = encode_lottery(&l);
    assert_eq!(bytes.len(), 123);
    let back = decode_lottery(&bytes).unwrap();
    assert_eq!(back.state, LotteryState::Ended);
    assert_eq!(back.winning_pot, Some(addr(21, 22, 23, 24)));
}

#[test]
fn lottery_encoding_matches_borsh_layout() {
    // The record's wire form is exactly what borsh produces for the same
    // field tuple: little-endian words, a tag byte per enum/option.
    let l = sample_lottery();
    let tuple = (
        (1u64, 2u64, 3u64, 4u64),
        (5u64, 6u64, 7u64, 8u64),
        1u8,
        100i64,
        -7i64,
        9u64,
        None::<(u64, u64, u64, u64)>,
        254u8,
    );
    assert_eq!(encode_lottery(&l), borsh::to_vec(&tuple).unwrap());
}

#[test]
fn pot_record_round_trips() {
    let p = sample_pot();
    let bytes = encode_pot(&p);
    assert_eq!(bytes.len(), 113);
    let back = decode_pot(&bytes).unwrap();
    assert_eq!(back.lottery, p.lottery);
    assert_eq!(back.owner, p.owner);
    assert_eq!(back.escrow_account, p.escrow_account);
    assert_eq!(back.deposit_amount, p.deposit_amount);
    assert_eq!(back.ticket_count, p.ticket_count);
    assert_eq!(back.claimed, p.claimed);
}

#[test]
fn pot_encoding_matches_borsh_layout() {
    let p = sample_pot();
    let tuple = (
        (1u64, 2u64, 3u64, 4u64),
        (9u64, 10u64, 11u64, 12u64),
        (13u64, 14u64, 15u64, 16u64),
        12345u64,
        3u64,
        true,
    );
    assert_eq!(encode_pot(&p), borsh::to_vec(&tuple).unwrap());
}

#[test]
fn decode_rejects_truncation_and_trailing_bytes() {
    let l = sample_lottery();
    let bytes = encode_lottery(&l);
    assert!(decode_lottery(&bytes[..bytes.len() - 1]).is_none());
    let mut long = bytes.clone();
    long.push(0);
    assert!(decode_lottery(&long).is_none());
    assert!(decode_lottery(&[]).is_none());
}

#[test]
fn decode_rejects_bad_tag_bytes() {
    let l = sample_lottery();
    let mut bytes = encode_lottery(&l);
    // Byte 64 is the state tag: only 0, 1, 2 are legal.
    bytes[64] = 3;
    assert!(decode_lottery(&bytes).is_none());
    bytes[64] = 1;
    // Byte 89 is the winner presence byte: only 0, 1 are legal.
    bytes[89] = 2;
    assert!(decode_lottery(&bytes).is_none());

    let p = sample_pot();
    let mut pb = encode_pot(&p);
    // The final byte is the claimed flag: only 0, 1 are legal.
    let last = pb.len() - 1;
    pb[last] = 7;
    assert!(decode_pot(&pb).is_none());
}

#[test]
fn instructions_round_trip() {
    let cases: Vec<LotteryInstruction> = vec![
        LotteryInstruction::ClaimToken(ClaimTokenArgs { pot_bump: 7 }),
        LotteryInstruction::CreateLottery(CreateLotteryArgs {
            token_mint: addr(5, 6, 7, 8),
            start_time: -100,
            end_time: 200,
            seed: b"lottery".to_vec(),
        }),
        LotteryInstruction::ClaimBid(ClaimBidArgs { pot_bump: 8 }),
        LotteryInstruction::EndLottery(EndLotteryArgs { bump: 9 }),
        LotteryInstruction::StartLottery(StartLotteryArgs { bump: 10 }),
        LotteryInstruction::SetAuthority,
        LotteryInstruction::GetTicket(GetTicketArgs { amount: u64::MAX }),
    ];
    for (tag, inst) in cases.iter().enumerate() {
        let bytes = encode_instruction(inst);
        assert_eq!(bytes[0] as usize, tag);
        let back = decode_instruction(&bytes).expect("an encoded instruction decodes");
        match (inst, &back) {
            (LotteryInstruction::ClaimToken(a), LotteryInstruction::ClaimToken(b)) => {
                assert_eq!(a.pot_bump, b.pot_bump);
            }
            (LotteryInstruction::CreateLottery(a), LotteryInstruction::CreateLottery(b)) => {
                assert_eq!(a.token_mint, b.token_mint);
                assert_eq!(a.start_time, b.start_time);
                assert_eq!(a.end_time, b.end_time);
                assert_eq!(a.seed, b.seed);
            }
            (LotteryInstruction::ClaimBid(a), LotteryInstruction::ClaimBid(b)) => {
                assert_eq!(a.pot_bump, b.pot_bump);
            }
            (LotteryInstruction::EndLottery(a), LotteryInstruction::EndLottery(b)) => {
                assert_eq!(a.bump, b.bump);
            }
            (LotteryInstruction::StartLottery(a), LotteryInstruction::StartLottery(b)) => {
                assert_eq!(a.bump, b.bump);
            }
            (LotteryInstruction::SetAuthority, LotteryInstruction::SetAuthority) => {}
            (LotteryInstruction::GetTicket(a), LotteryInstruction::GetTicket(b)) => {
                assert_eq!(a.amount, b.amount);
            }
            _ => panic!("decoded into a different variant"),
        }
    }
}

#[test]
fn create_instruction_matches_borsh_layout() {
    let inst = LotteryInstruction::CreateLottery(CreateLotteryArgs {
        token_mint: addr(5, 6, 7, 8),
        start_time: -100,
        end_time: 200,
        seed: b"lottery".to_vec(),
    });
    let tuple = (1u8, (5u64, 6u64, 7u64, 8u64), -100i64, 200i64, b"lottery".to_vec());
    assert_eq!(encode_instruction(&inst), borsh::to_vec(&tuple).unwrap());
}

#[test]
fn get_ticket_instruction_matches_borsh_layout() {
    let inst = LotteryInstruction::GetTicket(GetTicketArgs { amount: 300 });
    let tuple = (6u8, 300u64);
    assert_eq!(encode_instruction(&inst), borsh::to_vec(&tuple).unwrap());
}

#[test]
fn decode_instruction_rejects_bad_input() {
    assert!(decode_instruction(&[]).is_none());
    // Unknown tag.
    assert!(decode_instruction(&[7u8]).is_none());
    // Truncated payload.
    assert!(decode_instruction(&[6u8, 1, 2, 3]).is_none());
    // Trailing bytes after a complete instruction.
    assert!(decode_instruction(&[5u8, 0]).is_none());
    // A seed length prefix pointing past the end of the buffer.
    let inst = LotteryInstruction::CreateLottery(CreateLotteryArgs {
        token_mint: addr(5, 6, 7, 8),
        start_time: 1,
        end_time: 2,
        seed: vec![],
    });
    let mut bytes = encode_instruction(&inst);
    bytes[49] = 200;
    assert!(decode_instruction(&bytes).is_none());
}

#[test]
fn signed_times_encode_as_two_s_complement() {
    let inst = LotteryInstruction::CreateLottery(CreateLotteryArgs {
        token_mint: addr(0, 0, 0, 1),
        start_time: i64::MIN,
        end_time: i64::MAX,
        seed: vec![],
    });
    let bytes = encode_instruction(&inst);
    assert_eq!(&bytes[33..41], &i64::MIN.to_le_bytes());
    assert_eq!(&bytes[41..49], &i64::MAX.to_le_bytes());
    let back = decode_instruction(&bytes).unwrap();
    match back {
        LotteryInstruction::CreateLottery(a) => {
            assert_eq!(a.start_time, i64::MIN);
            assert_eq!(a.end_time, i64::MAX);
        }
        _ => panic!("decoded into a different variant"),
    }
}
