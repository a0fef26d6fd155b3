//! The fixed, versionless binary encoding shared between the persisted
//! records and the instruction payloads.
//!
//! The format is deterministic and not self-describing: integers are
//! little-endian, a `bool` is one byte holding 0 or 1, an address is its 32
//! bytes, an optional address is a tag byte (0 or 1) followed by the
//! address when present, a byte string is a 32-bit length followed by the
//! bytes, an enum is a tag byte (the variant's position) followed by the
//! variant's payload, and a struct is its fields in declaration order.
//! Decoding is strict: out-of-range tag bytes and truncated buffers are
//! rejected, and a top-level payload must be consumed in full.

use crate::addr::Addr;
use crate::instruction::{
    ClaimBidArgs, ClaimTokenArgs, CreateLotteryArgs, EndLotteryArgs, GetTicketArgs,
    InstructionView, LotteryInstruction, StartLotteryArgs,
};
use crate::state::{Lottery, LotteryState, Pot};
use vstd::bytes::{
    lemma_auto_spec_u32_to_from_le_bytes, lemma_auto_spec_u64_to_from_le_bytes,
    spec_u32_from_le_bytes, spec_u32_to_le_bytes, spec_u64_from_le_bytes, spec_u64_to_le_bytes,
    u32_from_le_bytes, u32_to_le_bytes, u64_from_le_bytes, u64_to_le_bytes,
};
use vstd::prelude::*;
use vstd::slice::{slice_index_get, slice_subrange, slice_to_vec};

verus! {

// ---------------------------------------------------------------------------
// The two's-complement view of a signed time value on the wire.
// ---------------------------------------------------------------------------
/// The 64-bit word that carries a signed 64-bit value on the wire.
pub open spec fn i64_as_u64(x: i64) -> u64 {
    if x >= 0 {
        x as u64
    } else {
        (x + 0x1_0000_0000_0000_0000) as u64
    }
}

/// The signed value carried by a 64-bit wire word.
pub open spec fn u64_as_i64(x: u64) -> i64 {
    if x <= i64::MAX as u64 {
        x as i64
    } else {
        (x - 0x1_0000_0000_0000_0000) as i64
    }
}

/// The two's-complement wire mapping is a bijection on 64-bit values.
pub proof fn lemma_i64_wire_roundtrip(x: i64)
    ensures
        u64_as_i64(i64_as_u64(x)) == x,
{
}

/// Computes the wire word of a signed value.
pub fn i64_to_wire(x: i64) -> (r: u64)
    ensures
        r == i64_as_u64(x),
{
    if x >= 0 {
        x as u64
    } else {
        ((x as i128) + 0x1_0000_0000_0000_0000) as u64
    }
}

/// Recovers the signed value from its wire word.
pub fn wire_to_i64(x: u64) -> (r: i64)
    ensures
        r == u64_as_i64(x),
{
    if x <= i64::MAX as u64 {
        x as i64
    } else {
        ((x as i128) - 0x1_0000_0000_0000_0000) as i64
    }
}

// ---------------------------------------------------------------------------
// Specification-level encoders.
// ---------------------------------------------------------------------------
/// Encoding of a single byte.
pub open spec fn enc_u8(x: u8) -> Seq<u8> {
    seq![x]
}

/// Encoding of a boolean: one byte, 0 or 1.
pub open spec fn enc_bool(x: bool) -> Seq<u8> {
    if x {
        seq![1u8]
    } else {
        seq![0u8]
    }
}

/// Encoding of a 32-bit integer: four bytes, little-endian.
pub open spec fn enc_u32(x: u32) -> Seq<u8> {
    spec_u32_to_le_bytes(x)
}

/// Encoding of a 64-bit integer: eight bytes, little-endian.
pub open spec fn enc_u64(x: u64) -> Seq<u8> {
    spec_u64_to_le_bytes(x)
}

/// Encoding of a signed 64-bit value: its two's-complement word.
pub open spec fn enc_i64(x: i64) -> Seq<u8> {
    enc_u64(i64_as_u64(x))
}

/// Encoding of an address: its 32 bytes, word by word.
pub open spec fn enc_addr(a: Addr) -> Seq<u8> {
    enc_u64(a.w0) + enc_u64(a.w1) + enc_u64(a.w2) + enc_u64(a.w3)
}

/// Encoding of a lifecycle state: one tag byte.
pub open spec fn enc_state(s: LotteryState) -> Seq<u8> {
    match s {
        LotteryState::Pending => seq![0u8],
        LotteryState::Active => seq![1u8],
        LotteryState::Ended => seq![2u8],
    }
}

/// Encoding of an optional address: a presence byte, then the address.
pub open spec fn enc_opt_addr(o: Option<Addr>) -> Seq<u8> {
    match o {
        None => seq![0u8],
        Some(a) => seq![1u8] + enc_addr(a),
    }
}

/// Encoding of a byte string: a 32-bit length, then the bytes.
pub open spec fn enc_bytes(s: Seq<u8>) -> Seq<u8>
    recommends
        s.len() <= u32::MAX,
{
    enc_u32(s.len() as u32) + s
}

/// Encoding of a lottery record: its fields in declaration order.
pub open spec fn enc_lottery(l: Lottery) -> Seq<u8> {
    enc_addr(l.authority) + enc_addr(l.token_mint) + enc_state(l.state) + enc_i64(l.start_time)
        + enc_i64(l.end_time) + enc_u64(l.total_pot_count) + enc_opt_addr(l.winning_pot) + enc_u8(
        l.bump,
    )
}

/// Encoding of a pot record: its fields in declaration order.
pub open spec fn enc_pot(p: Pot) -> Seq<u8> {
    enc_addr(p.lottery) + enc_addr(p.owner) + enc_addr(p.escrow_account) + enc_u64(
        p.deposit_amount,
    ) + enc_u64(p.ticket_count) + enc_bool(p.claimed)
}

/// Encoding of an instruction: a tag byte, then the payload.
pub open spec fn enc_instruction(i: InstructionView) -> Seq<u8> {
    match i {
        InstructionView::ClaimToken { pot_bump } => seq![0u8] + enc_u8(pot_bump),
        InstructionView::CreateLottery { token_mint, start_time, end_time, seed } => seq![1u8]
            + enc_addr(token_mint) + enc_i64(start_time) + enc_i64(end_time) + enc_bytes(seed),
        InstructionView::ClaimBid { pot_bump } => seq![2u8] + enc_u8(pot_bump),
        InstructionView::EndLottery { bump } => seq![3u8] + enc_u8(bump),
        InstructionView::StartLottery { bump } => seq![4u8] + enc_u8(bump),
        InstructionView::SetAuthority => seq![5u8],
        InstructionView::GetTicket { amount } => seq![6u8] + enc_u64(amount),
    }
}

// ---------------------------------------------------------------------------
// Specification-level decoders.  Each consumes from position `p` and
// returns the decoded value with the next position, or `None` when the
// buffer is rejected.
// ---------------------------------------------------------------------------
/// Decodes one byte.
pub open spec fn dec_u8(b: Seq<u8>, p: int) -> Option<(u8, int)> {
    if 0 <= p && p + 1 <= b.len() {
        Some((b[p], p + 1))
    } else {
        None
    }
}

/// Decodes a boolean strictly: only 0 and 1 are accepted.
pub open spec fn dec_bool(b: Seq<u8>, p: int) -> Option<(bool, int)> {
    match dec_u8(b, p) {
        Some((x, q)) => if x == 0 {
            Some((false, q))
        } else if x == 1 {
            Some((true, q))
        } else {
            None
        },
        None => None,
    }
}

/// Decodes a little-endian 32-bit integer.
pub open spec fn dec_u32(b: Seq<u8>, p: int) -> Option<(u32, int)> {
    if 0 <= p && p + 4 <= b.len() {
        Some((spec_u32_from_le_bytes(b.subrange(p, p + 4)), p + 4))
    } else {
        None
    }
}

/// Decodes a little-endian 64-bit integer.
pub open spec fn dec_u64(b: Seq<u8>, p: int) -> Option<(u64, int)> {
    if 0 <= p && p + 8 <= b.len() {
        Some((spec_u64_from_le_bytes(b.subrange(p, p + 8)), p + 8))
    } else {
        None
    }
}

/// Decodes a signed 64-bit value.
pub open spec fn dec_i64(b: Seq<u8>, p: int) -> Option<(i64, int)> {
    match dec_u64(b, p) {
        Some((x, q)) => Some((u64_as_i64(x), q)),
        None => None,
    }
}

/// Decodes an address.
pub open spec fn dec_addr(b: Seq<u8>, p: int) -> Option<(Addr, int)> {
    match dec_u64(b, p) {
        Some((w0, p1)) => match dec_u64(b, p1) {
            Some((w1, p2)) => match dec_u64(b, p2) {
                Some((w2, p3)) => match dec_u64(b, p3) {
                    Some((w3, p4)) => Some((Addr { w0, w1, w2, w3 }, p4)),
                    None => None,
                },
                None => None,
            },
            None => None,
        },
        None => None,
    }
}

/// Decodes a lifecycle state strictly: only tags 0, 1, 2 are accepted.
pub open spec fn dec_state(b: Seq<u8>, p: int) -> Option<(LotteryState, int)> {
    match dec_u8(b, p) {
        Some((x, q)) => if x == 0 {
            Some((LotteryState::Pending, q))
        } else if x == 1 {
            Some((LotteryState::Active, q))
        } else if x == 2 {
            Some((LotteryState::Ended, q))
        } else {
            None
        },
        None => None,
    }
}

/// Decodes an optional address strictly: only presence bytes 0 and 1 are
/// accepted.
pub open spec fn dec_opt_addr(b: Seq<u8>, p: int) -> Option<(Option<Addr>, int)> {
    match dec_u8(b, p) {
        Some((x, q)) => if x == 0 {
            Some((None, q))
        } else if x == 1 {
            match dec_addr(b, q) {
                Some((a, q2)) => Some((Some(a), q2)),
                None => None,
            }
        } else {
            None
        },
        None => None,
    }
}

/// Decodes a length-prefixed byte string.
pub open spec fn dec_bytes(b: Seq<u8>, p: int) -> Option<(Seq<u8>, int)> {
    match dec_u32(b, p) {
        Some((n, q)) => if q + n <= b.len() {
            Some((b.subrange(q, q + n), q + n))
        } else {
            None
        },
        None => None,
    }
}

/// Decodes a lottery record.
pub open spec fn dec_lottery(b: Seq<u8>, p: int) -> Option<(Lottery, int)> {
    match dec_addr(b, p) {
        Some((authority, p1)) => match dec_addr(b, p1) {
            Some((token_mint, p2)) => match dec_state(b, p2) {
                Some((state, p3)) => match dec_i64(b, p3) {
                    Some((start_time, p4)) => match dec_i64(b, p4) {
                        Some((end_time, p5)) => match dec_u64(b, p5) {
                            Some((total_pot_count, p6)) => match dec_opt_addr(b, p6) {
                                Some((winning_pot, p7)) => match dec_u8(b, p7) {
                                    Some((bump, p8)) => Some(
                                        (
                                            Lottery {
                                                authority,
                                                token_mint,
                                                state,
                                                start_time,
                                                end_time,
                                                total_pot_count,
                                                winning_pot,
                                                bump,
                                            },
                                            p8,
                                        ),
                                    ),
                                    None => None,
                                },
                                None => None,
                            },
                            None => None,
                        },
                        None => None,
                    },
                    None => None,
                },
                None => None,
            },
            None => None,
        },
        None => None,
    }
}

/// Decodes a pot record.
pub open spec fn dec_pot(b: Seq<u8>, p: int) -> Option<(Pot, int)> {
    match dec_addr(b, p) {
        Some((lottery, p1)) => match dec_addr(b, p1) {
            Some((owner, p2)) => match dec_addr(b, p2) {
                Some((escrow_account, p3)) => match dec_u64(b, p3) {
                    Some((deposit_amount, p4)) => match dec_u64(b, p4) {
                        Some((ticket_count, p5)) => match dec_bool(b, p5) {
                            Some((claimed, p6)) => Some(
                                (
                                    Pot {
                                        lottery,
                                        owner,
                                        escrow_account,
                                        deposit_amount,
                                        ticket_count,
                                        claimed,
                                    },
                                    p6,
                                ),
                            ),
                            None => None,
                        },
                        None => None,
                    },
                    None => None,
                },
                None => None,
            },
            None => None,
        },
        None => None,
    }
}

/// Decodes an instruction: tag byte, then the variant's payload.
pub open spec fn dec_instruction(b: Seq<u8>, p: int) -> Option<(InstructionView, int)> {
    match dec_u8(b, p) {
        Some((tag, q)) => if tag == 0 {
            match dec_u8(b, q) {
                Some((pot_bump, q1)) => Some(((InstructionView::ClaimToken { pot_bump }), q1)),
                None => None,
            }
        } else if tag == 1 {
            match dec_addr(b, q) {
                Some((token_mint, q1)) => match dec_i64(b, q1) {
                    Some((start_time, q2)) => match dec_i64(b, q2) {
                        Some((end_time, q3)) => match dec_bytes(b, q3) {
                            Some((seed, q4)) => Some(
                                (
                                    (InstructionView::CreateLottery {
                                        token_mint,
                                        start_time,
                                        end_time,
                                        seed,
                                    }),
                                    q4,
                                ),
                            ),
                            None => None,
                        },
                        None => None,
                    },
                    None => None,
                },
                None => None,
            }
        } else if tag == 2 {
            match dec_u8(b, q) {
                Some((pot_bump, q1)) => Some(((InstructionView::ClaimBid { pot_bump }), q1)),
                None => None,
            }
        } else if tag == 3 {
            match dec_u8(b, q) {
                Some((bump, q1)) => Some(((InstructionView::EndLottery { bump }), q1)),
                None => None,
            }
        } else if tag == 4 {
            match dec_u8(b, q) {
                Some((bump, q1)) => Some(((InstructionView::StartLottery { bump }), q1)),
                None => None,
            }
        } else if tag == 5 {
            Some((InstructionView::SetAuthority, q))
        } else if tag == 6 {
            match dec_u64(b, q) {
                Some((amount, q1)) => Some(((InstructionView::GetTicket { amount }), q1)),
                None => None,
            }
        } else {
            None
        },
        None => None,
    }
}

/// A top-level instruction payload: one instruction, consumed in full.
pub open spec fn parse_instruction(b: Seq<u8>) -> Option<InstructionView> {
    match dec_instruction(b, 0) {
        Some((i, p)) => if p == b.len() {
            Some(i)
        } else {
            None
        },
        None => None,
    }
}

/// A top-level lottery record: one record, consumed in full.
pub open spec fn parse_lottery(b: Seq<u8>) -> Option<Lottery> {
    match dec_lottery(b, 0) {
        Some((l, p)) => if p == b.len() {
            Some(l)
        } else {
            None
        },
        None => None,
    }
}

/// A top-level pot record: one record, consumed in full.
pub open spec fn parse_pot(b: Seq<u8>) -> Option<Pot> {
    match dec_pot(b, 0) {
        Some((v, p)) => if p == b.len() {
            Some(v)
        } else {
            None
        },
        None => None,
    }
}

// ---------------------------------------------------------------------------
// Round trips: decoding inverts encoding.  The `..._at` lemmas show that a
// buffer carrying a value's encoding at position `p` decodes to that value
// and consumes exactly its bytes; the `parse_...` theorems compose them.
// ---------------------------------------------------------------------------
/// A subrange taken out of a larger subrange of `b`, addressed either
/// way, is the same bytes.
pub proof fn lemma_nested_subrange(b: Seq<u8>, p: int, len: int, off: int, sublen: int)
    requires
        0 <= p,
        0 <= off,
        0 <= sublen,
        off + sublen <= len,
        p + len <= b.len(),
    ensures
        b.subrange(p + off, p + off + sublen) == b.subrange(p, p + len).subrange(off, off + sublen),
{
    assert(b.subrange(p + off, p + off + sublen) =~= b.subrange(p, p + len).subrange(
        off,
        off + sublen,
    ));
}

/// A byte encoded at `p` decodes back.
pub proof fn lemma_dec_u8_at(b: Seq<u8>, p: int, x: u8)
    requires
        0 <= p,
        p + 1 <= b.len(),
        b.subrange(p, p + 1) == enc_u8(x),
    ensures
        dec_u8(b, p) == Some((x, p + 1)),
{
    assert(b[p] == b.subrange(p, p + 1)[0]);
}

/// A boolean encoded at `p` decodes back.
pub proof fn lemma_dec_bool_at(b: Seq<u8>, p: int, x: bool)
    requires
        0 <= p,
        p + 1 <= b.len(),
        b.subrange(p, p + 1) == enc_bool(x),
    ensures
        dec_bool(b, p) == Some((x, p + 1)),
{
    assert(b[p] == b.subrange(p, p + 1)[0]);
}

/// A 32-bit integer encoded at `p` decodes back.
pub proof fn lemma_dec_u32_at(b: Seq<u8>, p: int, x: u32)
    requires
        0 <= p,
        p + 4 <= b.len(),
        b.subrange(p, p + 4) == enc_u32(x),
    ensures
        dec_u32(b, p) == Some((x, p + 4)),
{
    lemma_auto_spec_u32_to_from_le_bytes();
    assert(spec_u32_to_le_bytes(x).len() == 4);
}

/// A 64-bit integer encoded at `p` decodes back.
pub proof fn lemma_dec_u64_at(b: Seq<u8>, p: int, x: u64)
    requires
        0 <= p,
        p + 8 <= b.len(),
        b.subrange(p, p + 8) == enc_u64(x),
    ensures
        dec_u64(b, p) == Some((x, p + 8)),
{
    lemma_auto_spec_u64_to_from_le_bytes();
}

/// A signed 64-bit value encoded at `p` decodes back.
pub proof fn lemma_dec_i64_at(b: Seq<u8>, p: int, x: i64)
    requires
        0 <= p,
        p + 8 <= b.len(),
        b.subrange(p, p + 8) == enc_i64(x),
    ensures
        dec_i64(b, p) == Some((x, p + 8)),
{
    lemma_dec_u64_at(b, p, i64_as_u64(x));
    lemma_i64_wire_roundtrip(x);
}

/// A lifecycle state encoded at `p` decodes back.
pub proof fn lemma_dec_state_at(b: Seq<u8>, p: int, s: LotteryState)
    requires
        0 <= p,
        p + 1 <= b.len(),
        b.subrange(p, p + 1) == enc_state(s),
    ensures
        dec_state(b, p) == Some((s, p + 1)),
{
    assert(b[p] == b.subrange(p, p + 1)[0]);
}

/// An address encoded at `p` decodes back.
pub proof fn lemma_dec_addr_at(b: Seq<u8>, p: int, a: Addr)
    requires
        0 <= p,
        p + 32 <= b.len(),
        b.subrange(p, p + 32) == enc_addr(a),
    ensures
        dec_addr(b, p) == Some((a, p + 32)),
{
    lemma_auto_spec_u64_to_from_le_bytes();
    let e = enc_addr(a);
    assert(enc_u64(a.w0).len() == 8 && enc_u64(a.w1).len() == 8 && enc_u64(a.w2).len() == 8
        && enc_u64(a.w3).len() == 8);
    lemma_nested_subrange(b, p, 32, 0, 8);
    assert(e.subrange(0, 8) =~= enc_u64(a.w0));
    lemma_dec_u64_at(b, p, a.w0);
    lemma_nested_subrange(b, p, 32, 8, 8);
    assert(e.subrange(8, 16) =~= enc_u64(a.w1));
    lemma_dec_u64_at(b, p + 8, a.w1);
    lemma_nested_subrange(b, p, 32, 16, 8);
    assert(e.subrange(16, 24) =~= enc_u64(a.w2));
    lemma_dec_u64_at(b, p + 16, a.w2);
    lemma_nested_subrange(b, p, 32, 24, 8);
    assert(e.subrange(24, 32) =~= enc_u64(a.w3));
    lemma_dec_u64_at(b, p + 24, a.w3);
}

/// An optional address encoded at `p` decodes back.
pub proof fn lemma_dec_opt_addr_at(b: Seq<u8>, p: int, o: Option<Addr>)
    requires
        0 <= p,
        p + enc_opt_addr(o).len() <= b.len(),
        b.subrange(p, p + enc_opt_addr(o).len()) == enc_opt_addr(o),
    ensures
        dec_opt_addr(b, p) == Some((o, p + enc_opt_addr(o).len())),
{
    lemma_auto_spec_u64_to_from_le_bytes();
    match o {
        None => {
            assert(b[p] == b.subrange(p, p + 1)[0]);
        },
        Some(a) => {
            let e = enc_opt_addr(o);
            assert(enc_addr(a).len() == 32);
            assert(b[p] == b.subrange(p, p + 33)[0]);
            lemma_nested_subrange(b, p, 33, 1, 32);
            assert(e.subrange(1, 33) =~= enc_addr(a));
            lemma_dec_addr_at(b, p + 1, a);
        },
    }
}

/// A byte string encoded at `p` decodes back.
pub proof fn lemma_dec_bytes_at(b: Seq<u8>, p: int, s: Seq<u8>)
    requires
        0 <= p,
        s.len() <= u32::MAX,
        p + 4 + s.len() <= b.len(),
        b.subrange(p, p + 4 + s.len()) == enc_bytes(s),
    ensures
        dec_bytes(b, p) == Some((s, p + 4 + s.len())),
{
    lemma_auto_spec_u32_to_from_le_bytes();
    let e = enc_bytes(s);
    assert(enc_u32(s.len() as u32).len() == 4);
    lemma_nested_subrange(b, p, 4 + s.len() as int, 0, 4);
    assert(e.subrange(0, 4) =~= enc_u32(s.len() as u32));
    lemma_dec_u32_at(b, p, s.len() as u32);
    lemma_nested_subrange(b, p, 4 + s.len() as int, 4, s.len() as int);
    assert(e.subrange(4, 4 + s.len() as int) =~= s);
    assert(b.subrange(p + 4, p + 4 + s.len()) == s);
}

/// The length of a lottery record's encoding.
pub proof fn lemma_enc_lottery_len(l: Lottery)
    ensures
        enc_lottery(l).len() == 90 + enc_opt_addr(l.winning_pot).len(),
        enc_opt_addr(l.winning_pot).len() == (if l.winning_pot is Some {
            33int
        } else {
            1int
        }),
{
    lemma_auto_spec_u64_to_from_le_bytes();
}

/// Decoding inverts encoding for lottery records.
pub proof fn lemma_parse_lottery_roundtrip(l: Lottery)
    ensures
        parse_lottery(enc_lottery(l)) == Some(l),
{
    lemma_auto_spec_u64_to_from_le_bytes();
    lemma_enc_lottery_len(l);
    let b = enc_lottery(l);
    let w = enc_opt_addr(l.winning_pot).len() as int;
    assert(b.subrange(0, 32) =~= enc_addr(l.authority));
    lemma_dec_addr_at(b, 0, l.authority);
    assert(b.subrange(32, 64) =~= enc_addr(l.token_mint));
    lemma_dec_addr_at(b, 32, l.token_mint);
    assert(b.subrange(64, 65) =~= enc_state(l.state));
    lemma_dec_state_at(b, 64, l.state);
    assert(b.subrange(65, 73) =~= enc_i64(l.start_time));
    lemma_dec_i64_at(b, 65, l.start_time);
    assert(b.subrange(73, 81) =~= enc_i64(l.end_time));
    lemma_dec_i64_at(b, 73, l.end_time);
    assert(b.subrange(81, 89) =~= enc_u64(l.total_pot_count));
    lemma_dec_u64_at(b, 81, l.total_pot_count);
    assert(b.subrange(89, 89 + w) =~= enc_opt_addr(l.winning_pot));
    lemma_dec_opt_addr_at(b, 89, l.winning_pot);
    assert(b.subrange(89 + w, 90 + w) =~= enc_u8(l.bump));
    lemma_dec_u8_at(b, 89 + w, l.bump);
}

/// Decoding inverts encoding for pot records.
pub proof fn lemma_parse_pot_roundtrip(p: Pot)
    ensures
        parse_pot(enc_pot(p)) == Some(p),
{
    lemma_auto_spec_u64_to_from_le_bytes();
    let b = enc_pot(p);
    assert(b.subrange(0, 32) =~= enc_addr(p.lottery));
    lemma_dec_addr_at(b, 0, p.lottery);
    assert(b.subrange(32, 64) =~= enc_addr(p.owner));
    lemma_dec_addr_at(b, 32, p.owner);
    assert(b.subrange(64, 96) =~= enc_addr(p.escrow_account));
    lemma_dec_addr_at(b, 64, p.escrow_account);
    assert(b.subrange(96, 104) =~= enc_u64(p.deposit_amount));
    lemma_dec_u64_at(b, 96, p.deposit_amount);
    assert(b.subrange(104, 112) =~= enc_u64(p.ticket_count));
    lemma_dec_u64_at(b, 104, p.ticket_count);
    assert(b.subrange(112, 113) =~= enc_bool(p.claimed));
    lemma_dec_bool_at(b, 112, p.claimed);
}

/// Decoding inverts encoding for instructions.
pub proof fn lemma_parse_instruction_roundtrip(i: InstructionView)
    requires
        (i matches InstructionView::CreateLottery { seed, .. } ==> seed.len() <= u32::MAX),
    ensures
        parse_instruction(enc_instruction(i)) == Some(i),
{
    lemma_auto_spec_u64_to_from_le_bytes();
    let b = enc_instruction(i);
    match i {
        InstructionView::ClaimToken { pot_bump } => {
            assert(b.subrange(1, 2) =~= enc_u8(pot_bump));
            lemma_dec_u8_at(b, 1, pot_bump);
        },
        InstructionView::CreateLottery { token_mint, start_time, end_time, seed } => {
            lemma_auto_spec_u32_to_from_le_bytes();
            assert(enc_addr(token_mint).len() == 32);
            assert(enc_i64(start_time).len() == 8 && enc_i64(end_time).len() == 8);
            assert(enc_u32(seed.len() as u32).len() == 4);
            assert(enc_bytes(seed).len() == 4 + seed.len());
            assert(b.len() == 53 + seed.len());
            assert(b.subrange(1, 33) =~= enc_addr(token_mint));
            lemma_dec_addr_at(b, 1, token_mint);
            assert(b.subrange(33, 41) =~= enc_i64(start_time));
            lemma_dec_i64_at(b, 33, start_time);
            assert(b.subrange(41, 49) =~= enc_i64(end_time));
            lemma_dec_i64_at(b, 41, end_time);
            assert(b.subrange(49, 53 + seed.len() as int) =~= enc_bytes(seed));
            lemma_dec_bytes_at(b, 49, seed);
        },
        InstructionView::ClaimBid { pot_bump } => {
            assert(b.subrange(1, 2) =~= enc_u8(pot_bump));
            lemma_dec_u8_at(b, 1, pot_bump);
        },
        InstructionView::EndLottery { bump } => {
            assert(b.subrange(1, 2) =~= enc_u8(bump));
            lemma_dec_u8_at(b, 1, bump);
        },
        InstructionView::StartLottery { bump } => {
            assert(b.subrange(1, 2) =~= enc_u8(bump));
            lemma_dec_u8_at(b, 1, bump);
        },
        InstructionView::SetAuthority => {
        },
        InstructionView::GetTicket { amount } => {
            assert(b.subrange(1, 9) =~= enc_u64(amount));
            lemma_dec_u64_at(b, 1, amount);
        },
    }
}

// ---------------------------------------------------------------------------
// Executable encoders.  Each appends one value's encoding to the output.
// ---------------------------------------------------------------------------
/// Appends one byte.
pub fn write_u8(out: &mut Vec<u8>, x: u8)
    ensures
        final(out)@ == old(out)@ + enc_u8(x),
{
    out.push(x);
    proof {
        assert(out@ =~= old(out)@ + enc_u8(x));
    }
}

/// Appends a boolean byte.
pub fn write_bool(out: &mut Vec<u8>, x: bool)
    ensures
        final(out)@ == old(out)@ + enc_bool(x),
{
    if x {
        out.push(1u8);
    } else {
        out.push(0u8);
    }
    proof {
        assert(out@ =~= old(out)@ + enc_bool(x));
    }
}

/// Appends a 32-bit integer, little-endian.
pub fn write_u32(out: &mut Vec<u8>, x: u32)
    ensures
        final(out)@ == old(out)@ + enc_u32(x),
{
    let mut t = u32_to_le_bytes(x);
    out.append(&mut t);
}

/// Appends a 64-bit integer, little-endian.
pub fn write_u64(out: &mut Vec<u8>, x: u64)
    ensures
        final(out)@ == old(out)@ + enc_u64(x),
{
    let mut t = u64_to_le_bytes(x);
    out.append(&mut t);
}

/// Appends a signed 64-bit value as its two's-complement word.
pub fn write_i64(out: &mut Vec<u8>, x: i64)
    ensures
        final(out)@ == old(out)@ + enc_i64(x),
{
    write_u64(out, i64_to_wire(x));
}

/// Appends an address.
pub fn write_addr(out: &mut Vec<u8>, a: Addr)
    ensures
        final(out)@ == old(out)@ + enc_addr(a),
{
    write_u64(out, a.w0);
    write_u64(out, a.w1);
    write_u64(out, a.w2);
    write_u64(out, a.w3);
    proof {
        assert(out@ =~= old(out)@ + enc_addr(a));
    }
}

/// Appends a lifecycle state tag.
pub fn write_state(out: &mut Vec<u8>, s: LotteryState)
    ensures
        final(out)@ == old(out)@ + enc_state(s),
{
    match s {
        LotteryState::Pending => out.push(0u8),
        LotteryState::Active => out.push(1u8),
        LotteryState::Ended => out.push(2u8),
    }
    proof {
        assert(out@ =~= old(out)@ + enc_state(s));
    }
}

/// Appends an optional address.
pub fn write_opt_addr(out: &mut Vec<u8>, o: &Option<Addr>)
    ensures
        final(out)@ == old(out)@ + enc_opt_addr(*o),
{
    match o {
        None => {
            write_u8(out, 0);
        },
        Some(a) => {
            write_u8(out, 1);
            write_addr(out, *a);
            proof {
                assert(out@ =~= old(out)@ + enc_opt_addr(*o));
            }
        },
    }
}

/// Appends a length-prefixed byte string.
pub fn write_bytes(out: &mut Vec<u8>, s: &[u8])
    requires
        s@.len() <= u32::MAX,
    ensures
        final(out)@ == old(out)@ + enc_bytes(s@),
{
    write_u32(out, s.len() as u32);
    let mut t = slice_to_vec(s);
    out.append(&mut t);
    proof {
        assert(out@ =~= old(out)@ + enc_bytes(s@));
    }
}

/// Encodes a lottery record.
pub fn encode_lottery(l: &Lottery) -> (r: Vec<u8>)
    ensures
        r@ == enc_lottery(*l),
{
    let mut out: Vec<u8> = Vec::new();
    write_addr(&mut out, l.authority);
    write_addr(&mut out, l.token_mint);
    write_state(&mut out, l.state);
    write_i64(&mut out, l.start_time);
    write_i64(&mut out, l.end_time);
    write_u64(&mut out, l.total_pot_count);
    write_opt_addr(&mut out, &l.winning_pot);
    write_u8(&mut out, l.bump);
    proof {
        assert(out@ =~= enc_lottery(*l));
    }
    out
}

/// Encodes a pot record.
pub fn encode_pot(p: &Pot) -> (r: Vec<u8>)
    ensures
        r@ == enc_pot(*p),
{
    let mut out: Vec<u8> = Vec::new();
    write_addr(&mut out, p.lottery);
    write_addr(&mut out, p.owner);
    write_addr(&mut out, p.escrow_account);
    write_u64(&mut out, p.deposit_amount);
    write_u64(&mut out, p.ticket_count);
    write_bool(&mut out, p.claimed);
    proof {
        assert(out@ =~= enc_pot(*p));
    }
    out
}

/// Encodes an instruction for the wire.
pub fn encode_instruction(i: &LotteryInstruction) -> (r: Vec<u8>)
    requires
        (i@ matches InstructionView::CreateLottery { seed, .. } ==> seed.len() <= u32::MAX),
    ensures
        r@ == enc_instruction(i@),
{
    let mut out: Vec<u8> = Vec::new();
    match i {
        LotteryInstruction::ClaimToken(a) => {
            write_u8(&mut out, 0);
            write_u8(&mut out, a.pot_bump);
        },
        LotteryInstruction::CreateLottery(a) => {
            write_u8(&mut out, 1);
            write_addr(&mut out, a.token_mint);
            write_i64(&mut out, a.start_time);
            write_i64(&mut out, a.end_time);
            write_bytes(&mut out, a.seed.as_slice());
        },
        LotteryInstruction::ClaimBid(a) => {
            write_u8(&mut out, 2);
            write_u8(&mut out, a.pot_bump);
        },
        LotteryInstruction::EndLottery(a) => {
            write_u8(&mut out, 3);
            write_u8(&mut out, a.bump);
        },
        LotteryInstruction::StartLottery(a) => {
            write_u8(&mut out, 4);
            write_u8(&mut out, a.bump);
        },
        LotteryInstruction::SetAuthority => {
            write_u8(&mut out, 5);
        },
        LotteryInstruction::GetTicket(a) => {
            write_u8(&mut out, 6);
            write_u64(&mut out, a.amount);
        },
    }
    proof {
        assert(out@ =~= enc_instruction(i@));
    }
    out
}

// ---------------------------------------------------------------------------
// Executable decoders.  Each agrees exactly with its specification decoder.
// ---------------------------------------------------------------------------
/// Reads one byte.
pub fn read_u8(b: &[u8], p: usize) -> (r: Option<(u8, usize)>)
    ensures
        match r {
            Some((x, q)) => dec_u8(b@, p as int) == Some((x, q as int)),
            None => dec_u8(b@, p as int) is None,
        },
{
    if p < b.len() {
        let x = *slice_index_get(b, p);
        Some((x, p + 1))
    } else {
        None
    }
}

/// Reads a boolean byte, rejecting values other than 0 and 1.
pub fn read_bool(b: &[u8], p: usize) -> (r: Option<(bool, usize)>)
    ensures
        match r {
            Some((x, q)) => dec_bool(b@, p as int) == Some((x, q as int)),
            None => dec_bool(b@, p as int) is None,
        },
{
    match read_u8(b, p) {
        Some((x, q)) => {
            if x == 0 {
                Some((false, q))
            } else if x == 1 {
                Some((true, q))
            } else {
                None
            }
        },
        None => None,
    }
}

/// Reads a little-endian 32-bit integer.
pub fn read_u32(b: &[u8], p: usize) -> (r: Option<(u32, usize)>)
    ensures
        match r {
            Some((x, q)) => dec_u32(b@, p as int) == Some((x, q as int)),
            None => dec_u32(b@, p as int) is None,
        },
{
    if b.len() >= 4 && p <= b.len() - 4 {
        let s = slice_subrange(b, p, p + 4);
        Some((u32_from_le_bytes(s), p + 4))
    } else {
        None
    }
}

/// Reads a little-endian 64-bit integer.
pub fn read_u64(b: &[u8], p: usize) -> (r: Option<(u64, usize)>)
    ensures
        match r {
            Some((x, q)) => dec_u64(b@, p as int) == Some((x, q as int)),
            None => dec_u64(b@, p as int) is None,
        },
{
    if b.len() >= 8 && p <= b.len() - 8 {
        let s = slice_subrange(b, p, p + 8);
        Some((u64_from_le_bytes(s), p + 8))
    } else {
        None
    }
}

/// Reads a signed 64-bit value.
pub fn read_i64(b: &[u8], p: usize) -> (r: Option<(i64, usize)>)
    ensures
        match r {
            Some((x, q)) => dec_i64(b@, p as int) == Some((x, q as int)),
            None => dec_i64(b@, p as int) is None,
        },
{
    match read_u64(b, p) {
        Some((x, q)) => Some((wire_to_i64(x), q)),
        None => None,
    }
}

/// Reads an address.
pub fn read_addr(b: &[u8], p: usize) -> (r: Option<(Addr, usize)>)
    ensures
        match r {
            Some((a, q)) => dec_addr(b@, p as int) == Some((a, q as int)),
            None => dec_addr(b@, p as int) is None,
        },
{
    match read_u64(b, p) {
        Some((w0, p1)) => match read_u64(b, p1) {
            Some((w1, p2)) => match read_u64(b, p2) {
                Some((w2, p3)) => match read_u64(b, p3) {
                    Some((w3, p4)) => Some((Addr { w0, w1, w2, w3 }, p4)),
                    None => None,
                },
                None => None,
            },
            None => None,
        },
        None => None,
    }
}

/// Reads a lifecycle state tag, rejecting tags above 2.
pub fn read_state(b: &[u8], p: usize) -> (r: Option<(LotteryState, usize)>)
    ensures
        match r {
            Some((s, q)) => dec_state(b@, p as int) == Some((s, q as int)),
            None => dec_state(b@, p as int) is None,
        },
{
    match read_u8(b, p) {
        Some((x, q)) => {
            if x == 0 {
                Some((LotteryState::Pending, q))
            } else if x == 1 {
                Some((LotteryState::Active, q))
            } else if x == 2 {
                Some((LotteryState::Ended, q))
            } else {
                None
            }
        },
        None => None,
    }
}

/// Reads an optional address, rejecting presence bytes above 1.
pub fn read_opt_addr(b: &[u8], p: usize) -> (r: Option<(Option<Addr>, usize)>)
    ensures
        match r {
            Some((o, q)) => dec_opt_addr(b@, p as int) == Some((o, q as int)),
            None => dec_opt_addr(b@, p as int) is None,
        },
{
    match read_u8(b, p) {
        Some((x, q)) => {
            if x == 0 {
                Some((None, q))
            } else if x == 1 {
                match read_addr(b, q) {
                    Some((a, q2)) => Some((Some(a), q2)),
                    None => None,
                }
            } else {
                None
            }
        },
        None => None,
    }
}

/// Reads a length-prefixed byte string.
pub fn read_bytes(b: &[u8], p: usize) -> (r: Option<(Vec<u8>, usize)>)
    ensures
        match r {
            Some((v, q)) => dec_bytes(b@, p as int) == Some((v@, q as int)),
            None => dec_bytes(b@, p as int) is None,
        },
{
    match read_u32(b, p) {
        Some((n, q)) => {
            let n = n as usize;
            if n <= b.len() - q {
                let s = slice_subrange(b, q, q + n);
                Some((slice_to_vec(s), q + n))
            } else {
                None
            }
        },
        None => None,
    }
}

/// Reads a lottery record.
pub fn read_lottery(b: &[u8], p: usize) -> (r: Option<(Lottery, usize)>)
    ensures
        match r {
            Some((l, q)) => dec_lottery(b@, p as int) == Some((l, q as int)),
            None => dec_lottery(b@, p as int) is None,
        },
{
    match read_addr(b, p) {
        Some((authority, p1)) => match read_addr(b, p1) {
            Some((token_mint, p2)) => match read_state(b, p2) {
                Some((state, p3)) => match read_i64(b, p3) {
                    Some((start_time, p4)) => match read_i64(b, p4) {
                        Some((end_time, p5)) => match read_u64(b, p5) {
                            Some((total_pot_count, p6)) => match read_opt_addr(b, p6) {
                                Some((winning_pot, p7)) => match read_u8(b, p7) {
                                    Some((bump, p8)) => Some(
                                        (
                                            Lottery {
                                                authority,
                                                token_mint,
                                                state,
                                                start_time,
                                                end_time,
                                                total_pot_count,
                                                winning_pot,
                                                bump,
                                            },
                                            p8,
                                        ),
                                    ),
                                    None => None,
                                },
                                None => None,
                            },
                            None => None,
                        },
                        None => None,
                    },
                    None => None,
                },
                None => None,
            },
            None => None,
        },
        None => None,
    }
}

/// Reads a pot record.
pub fn read_pot(b: &[u8], p: usize) -> (r: Option<(Pot, usize)>)
    ensures
        match r {
            Some((v, q)) => dec_pot(b@, p as int) == Some((v, q as int)),
            None => dec_pot(b@, p as int) is None,
        },
{
    match read_addr(b, p) {
        Some((lottery, p1)) => match read_addr(b, p1) {
            Some((owner, p2)) => match read_addr(b, p2) {
                Some((escrow_account, p3)) => match read_u64(b, p3) {
                    Some((deposit_amount, p4)) => match read_u64(b, p4) {
                        Some((ticket_count, p5)) => match read_bool(b, p5) {
                            Some((claimed, p6)) => Some(
                                (
                                    Pot {
                                        lottery,
                                        owner,
                                        escrow_account,
                                        deposit_amount,
                                        ticket_count,
                                        claimed,
                                    },
                                    p6,
                                ),
                            ),
                            None => None,
                        },
                        None => None,
                    },
                    None => None,
                },
                None => None,
            },
            None => None,
        },
        None => None,
    }
}

/// Reads an instruction.
pub fn read_instruction(b: &[u8], p: usize) -> (r: Option<(LotteryInstruction, usize)>)
    ensures
        match r {
            Some((i, q)) => dec_instruction(b@, p as int) == Some((i@, q as int)),
            None => dec_instruction(b@, p as int) is None,
        },
{
    match read_u8(b, p) {
        Some((tag, q)) => {
            if tag == 0 {
                match read_u8(b, q) {
                    Some((pot_bump, q1)) => Some(
                        (LotteryInstruction::ClaimToken(ClaimTokenArgs { pot_bump }), q1),
                    ),
                    None => None,
                }
            } else if tag == 1 {
                match read_addr(b, q) {
                    Some((token_mint, q1)) => match read_i64(b, q1) {
                        Some((start_time, q2)) => match read_i64(b, q2) {
                            Some((end_time, q3)) => match read_bytes(b, q3) {
                                Some((seed, q4)) => Some(
                                    (
                                        LotteryInstruction::CreateLottery(
                                            CreateLotteryArgs {
                                                token_mint,
                                                start_time,
                                                end_time,
                                                seed,
                                            },
                                        ),
                                        q4,
                                    ),
                                ),
                                None => None,
                            },
                            None => None,
                        },
                        None => None,
                    },
                    None => None,
                }
            } else if tag == 2 {
                match read_u8(b, q) {
                    Some((pot_bump, q1)) => Some(
                        (LotteryInstruction::ClaimBid(ClaimBidArgs { pot_bump }), q1),
                    ),
                    None => None,
                }
            } else if tag == 3 {
                match read_u8(b, q) {
                    Some((bump, q1)) => Some(
                        (LotteryInstruction::EndLottery(EndLotteryArgs { bump }), q1),
                    ),
                    None => None,
                }
            } else if tag == 4 {
                match read_u8(b, q) {
                    Some((bump, q1)) => Some(
                        (LotteryInstruction::StartLottery(StartLotteryArgs { bump }), q1),
                    ),
                    None => None,
                }
            } else if tag == 5 {
                Some((LotteryInstruction::SetAuthority, q))
            } else if tag == 6 {
                match read_u64(b, q) {
                    Some((amount, q1)) => Some(
                        (LotteryInstruction::GetTicket(GetTicketArgs { amount }), q1),
                    ),
                    None => None,
                }
            } else {
                None
            }
        },
        None => None,
    }
}

/// Decodes a full instruction payload, rejecting trailing bytes.
pub fn decode_instruction(b: &[u8]) -> (r: Option<LotteryInstruction>)
    ensures
        match r {
            Some(i) => parse_instruction(b@) == Some(i@),
            None => parse_instruction(b@) is None,
        },
{
    match read_instruction(b, 0) {
        Some((i, q)) => {
            if q == b.len() {
                Some(i)
            } else {
                None
            }
        },
        None => None,
    }
}

/// Decodes a full lottery record, rejecting trailing bytes.
pub fn decode_lottery(b: &[u8]) -> (r: Option<Lottery>)
    ensures
        r == parse_lottery(b@),
{
    match read_lottery(b, 0) {
        Some((l, q)) => {
            if q == b.len() {
                Some(l)
            } else {
                None
            }
        },
        None => None,
    }
}

/// Decodes a full pot record, rejecting trailing bytes.
pub fn decode_pot(b: &[u8]) -> (r: Option<Pot>)
    ensures
        r == parse_pot(b@),
{
    match read_pot(b, 0) {
        Some((v, q)) => {
            if q == b.len() {
                Some(v)
            } else {
                None
            }
        },
        None => None,
    }
}

} // verus!
