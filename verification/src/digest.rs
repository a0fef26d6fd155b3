//! The deterministic digest used to draw a winner.
//!
//! Ending a lottery draws a winning ticket from a SHA-256 digest of the
//! accumulated ledger state, so every replaying node selects the same
//! winner.  The digest itself comes from the host's hashing primitive; the
//! engine only relies on it being a pure function of the input bytes.

use vstd::prelude::*;

verus! {

/// The SHA-256 digest of a byte sequence.  SHA-256 is a pure function of
/// its input, the same in every process and on every machine, so the
/// digest may be named; its definition is not written out here, and
/// nothing in the engine depends on what the digest of a given input is —
/// only on its determinism and its 32-byte length.
pub uninterp spec fn sha256_of(bytes: Seq<u8>) -> Seq<u8>;

/// Relies on `solana_program::hash::hash` (SHA-256, via
/// `solana_sha256_hasher::hash` with the `sha2` feature): the digest is a
/// pure function of the input bytes alone, and is 32 bytes long.
#[verifier::external_body]
pub(crate) fn sha256(bytes: &Vec<u8>) -> (r: Vec<u8>)
    ensures
        r@ == sha256_of(bytes@),
        r@.len() == 32,
{
    let h = solana_program::hash::hash(bytes.as_slice());
    h.to_bytes().to_vec()
}

} // verus!
