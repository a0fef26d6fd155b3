//! Account addresses.
//!
//! The host ledger identifies every account by a 32-byte address.  The
//! engine never looks inside an address: it only compares addresses for
//! equality and copies them around.  An address is held as four 64-bit
//! words; word `w0` holds the first eight bytes of the address in
//! little-endian order, `w3` the last eight.

use vstd::prelude::*;

verus! {

/// A 32-byte account address, as four little-endian 64-bit words.
#[derive(Clone, Copy, PartialEq, Eq, Structural, Debug)]
pub struct Addr {
    pub w0: u64,
    pub w1: u64,
    pub w2: u64,
    pub w3: u64,
}

impl Addr {
    /// The all-zero address.  The host ledger uses it as the "no account"
    /// placeholder, so a token mint equal to it is treated as malformed.
    pub open spec fn spec_zero() -> Addr {
        Addr { w0: 0, w1: 0, w2: 0, w3: 0 }
    }

    /// Builds the all-zero address.
    pub fn zero() -> (a: Addr)
        ensures
            a == Addr::spec_zero(),
    {
        Addr { w0: 0, w1: 0, w2: 0, w3: 0 }
    }

    /// Builds an address from its four little-endian words.
    pub fn new(w0: u64, w1: u64, w2: u64, w3: u64) -> (a: Addr)
        ensures
            a == (Addr { w0, w1, w2, w3 }),
    {
        Addr { w0, w1, w2, w3 }
    }
}

} // verus!
