//! A ticketed-lottery escrow engine: a state machine that lets a resource
//! owner run a time-bounded lottery over a fungible-token pool.  Participants
//! lock tokens into per-participant escrow pots to receive tickets; the
//! lottery is started, ended (which draws a winner deterministically from a
//! digest of the accumulated state), and settled so that the winning pot's
//! tokens move to a destination and losing pots are refunded.
//!
//! Every mutating operation validates fully before it writes: authority
//! first, then lifecycle legality, then the operation's own checks.  On any
//! failure the operation leaves all records unchanged.

pub mod addr;
pub mod codec;
pub mod digest;
pub mod engine;
pub mod error;
pub mod instruction;
pub mod laws;
pub mod state;
