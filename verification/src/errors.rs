//! Error taxonomy of the accounting core. Every error is terminal for the
//! current call: the operation that reports one leaves the ledger exactly as
//! it was before the call began.

use vstd::prelude::*;

verus! {

/// Why a call against the ledger was rejected.
#[derive(Clone, Copy, Debug, PartialEq, Eq, Structural)]
pub enum TokenError {
    /// `register` was called for an identity that already holds an entry.
    AlreadyRegistered,
    /// The named account holds no entry in the ledger.
    NotRegistered,
    /// Self-service unregistration was asked for while the balance is non-zero.
    BalanceNotEmpty,
    /// The sender's balance does not cover the requested amount.
    InsufficientBalance,
    /// The value attached to the call does not cover the storage it would grow.
    InsufficientDeposit,
    /// A transfer named the same account as sender and receiver.
    SelfTransferNotAllowed,
    /// A transfer of zero tokens was requested.
    ZeroAmount,
    /// An addition would have exceeded the 128-bit balance range.
    Overflow,
    /// The receiver of a transfer-and-call failed instead of answering.
    ReceiverTrapped,
}

impl TokenError {
    /// A short description, for hosts that surface errors as text.
    pub fn describe(&self) -> (r: &'static str)
        ensures
            r@.len() > 0,
    {
        let s = match self {
            TokenError::AlreadyRegistered => "the account is already registered",
            TokenError::NotRegistered => "the account is not registered",
            TokenError::BalanceNotEmpty => "cannot unregister an account holding a balance",
            TokenError::InsufficientBalance => "the balance does not cover the amount",
            TokenError::InsufficientDeposit => "the attached deposit does not cover storage",
            TokenError::SelfTransferNotAllowed => "sender and receiver must differ",
            TokenError::ZeroAmount => "the transfer amount must be positive",
            TokenError::Overflow => "the addition would overflow the balance range",
            TokenError::ReceiverTrapped => "the receiver failed before answering",
        };
        proof {
            reveal_strlit("the account is already registered");
            reveal_strlit("the account is not registered");
            reveal_strlit("cannot unregister an account holding a balance");
            reveal_strlit("the balance does not cover the amount");
            reveal_strlit("the attached deposit does not cover storage");
            reveal_strlit("sender and receiver must differ");
            reveal_strlit("the transfer amount must be positive");
            reveal_strlit("the addition would overflow the balance range");
            reveal_strlit("the receiver failed before answering");
        }
        s
    }
}

} // verus!
