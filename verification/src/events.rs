//! Observability events. The host consumes these after a call returns; they
//! carry no return value and change no state. Each applicable call emits each
//! of its events exactly once.

use crate::ids::AccountId;
use vstd::prelude::*;

verus! {

/// A notification the core hands outward.
pub enum Event {
    /// Tokens left circulation: a forced close burned a remaining balance, or
    /// a transfer-and-call refund found its sender gone.
    TokensBurned { id: AccountId, amount: u128 },
    /// An account's registration was closed; `balance` is what it held just
    /// before the close.
    AccountClosed { id: AccountId, balance: u128 },
}

} // verus!
