//! The error taxonomy of the escrow engine.
//!
//! Every failure is fatal to the operation that raised it: the engine
//! commits no state change and emits no event alongside any of these.

use vstd::prelude::*;

verus! {

/// Why an engine operation was rejected.
///
/// Each operation's contract states exactly which inputs produce which
/// variant, so callers can tell a permanent rejection (bad arguments,
/// wrong party, wrong time) from one that a retry at a later instant can
/// clear (`AlreadyExists`).
#[derive(Clone, Copy, Debug, PartialEq, Eq, Structural)]
pub enum EscrowError {
    /// The caller is not the party this operation is reserved to.
    Unauthorized,
    /// `amount` was not strictly positive.
    InvalidAmount,
    /// `safety_deposit` was negative.
    InvalidSafetyDeposit,
    /// The deadline did not lie strictly in the future.
    InvalidDeadline,
    /// A record already sits at the derived identifier.
    AlreadyExists,
    /// No record sits at the given identifier.
    NotFound,
    /// A record was observed mid-transition; the host's call-atomicity
    /// assumption was violated and the engine fails closed.
    ReentrancyDetected,
    /// The escrow was already resolved by a withdraw.
    AlreadyWithdrawn,
    /// The escrow was already resolved by a refund.
    AlreadyRefunded,
    /// A withdraw arrived at or after the deadline.
    DeadlineExpired,
    /// A refund arrived strictly before the deadline.
    DeadlineNotExpired,
    /// The revealed secret does not hash to the record's hashlock.
    InvalidPreimage,
    /// The transfer capability could not move the requested value.
    InsufficientBalance,
}

impl EscrowError {
    /// A short stable name for the error, for callers that log or print.
    pub fn as_str(&self) -> (r: &'static str)
        ensures
            r@.len() > 0,
    {
        proof {
            reveal_strlit("unauthorized");
            reveal_strlit("invalid amount");
            reveal_strlit("invalid safety deposit");
            reveal_strlit("invalid deadline");
            reveal_strlit("contract already exists");
            reveal_strlit("contract not found");
            reveal_strlit("reentrancy detected");
            reveal_strlit("already withdrawn");
            reveal_strlit("already refunded");
            reveal_strlit("deadline expired");
            reveal_strlit("deadline not expired");
            reveal_strlit("invalid preimage");
            reveal_strlit("insufficient balance");
        }
        match self {
            EscrowError::Unauthorized => "unauthorized",
            EscrowError::InvalidAmount => "invalid amount",
            EscrowError::InvalidSafetyDeposit => "invalid safety deposit",
            EscrowError::InvalidDeadline => "invalid deadline",
            EscrowError::AlreadyExists => "contract already exists",
            EscrowError::NotFound => "contract not found",
            EscrowError::ReentrancyDetected => "reentrancy detected",
            EscrowError::AlreadyWithdrawn => "already withdrawn",
            EscrowError::AlreadyRefunded => "already refunded",
            EscrowError::DeadlineExpired => "deadline expired",
            EscrowError::DeadlineNotExpired => "deadline not expired",
            EscrowError::InvalidPreimage => "invalid preimage",
            EscrowError::InsufficientBalance => "insufficient balance",
        }
    }
}

} // verus!
