//! A hashed-timelock escrow engine.
//!
//! An escrow is created under a 256-bit identifier derived from its
//! parameters, and is resolved exactly once: either the receiver reveals
//! the hash preimage before the deadline (withdraw), or the sender
//! reclaims the funds at or after the deadline (refund).
//!
//! The engine consumes its surroundings as injected capabilities, per
//! call: a clock reading (`now`), an authenticated caller, and a
//! transfer capability ([`ledger::TokenLedger`]) that moves value
//! between custody accounts. Each operation's contract states, for
//! every input, exactly which error it returns or how the store, the
//! event log and the ledger change ([`htlc`]); the global guarantees —
//! duplicate rejection, exclusivity of the two terminal transitions
//! over arbitrary operation sequences, the temporal boundary, preimage
//! soundness, and conservation of the escrowed value — are proved in
//! [`laws`], and injectivity of the identifier packing in [`id`].

pub mod digest;
pub mod encode;
pub mod errors;
pub mod htlc;
pub mod id;
pub mod laws;
pub mod ledger;
pub mod principal;
