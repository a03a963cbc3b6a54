//! The deposit escrow: settles the value attached to a mutating call against
//! the storage the call grew or freed. The host measures its byte usage
//! before and after the operation and hands both counts here; the settlement
//! says how much of the attachment is consumed and how much flows back to the
//! caller in the single outbound refund transfer of the call (a refund of
//! zero is elided by the host, not an error).
//!
//! A failed operation is never settled: the host propagates the failure and
//! returns the full attachment, so the escrow only ever sees calls that
//! completed their state change.

use crate::errors::TokenError;
use crate::meter::storage_cost;
use crate::meter::storage_cost_spec;
use vstd::prelude::*;

verus! {

/// How an escrowed call's attached value was divided.
#[derive(Clone, Copy, Debug, PartialEq, Eq, Structural)]
pub struct Settlement {
    /// Value consumed to pay for grown storage.
    pub charged: u128,
    /// Value returned to the caller: the unconsumed attachment, plus the
    /// payout for freed storage when the call shrank the state.
    pub refund: u128,
}

/// The settlement owed for a call that was attached `attached` value and
/// moved the host's byte usage from `bytes_before` to `bytes_after`.
///
/// Growth must be covered by the attachment or the whole call fails with
/// `InsufficientDeposit`; shrinkage pays the caller for the freed bytes on
/// top of the full attachment; an unchanged byte count returns the
/// attachment untouched. A shrinkage payout that would not fit in 128 bits
/// is rejected as `Overflow` rather than wrapped.
pub open spec fn settle_spec(attached: u128, bytes_before: u64, bytes_after: u64) -> Result<
    Settlement,
    TokenError,
> {
    if bytes_after > bytes_before {
        let required = storage_cost_spec((bytes_after - bytes_before) as u64);
        if attached < required {
            Err(TokenError::InsufficientDeposit)
        } else {
            Ok(Settlement { charged: required as u128, refund: (attached - required) as u128 })
        }
    } else if bytes_after < bytes_before {
        let released = storage_cost_spec((bytes_before - bytes_after) as u64);
        if attached + released > u128::MAX {
            Err(TokenError::Overflow)
        } else {
            Ok(Settlement { charged: 0, refund: (attached + released) as u128 })
        }
    } else {
        Ok(Settlement { charged: 0, refund: attached })
    }
}

/// Settles an escrowed call, exactly as `settle_spec` says.
pub fn settle(attached: u128, bytes_before: u64, bytes_after: u64) -> (r: Result<
    Settlement,
    TokenError,
>)
    ensures
        r == settle_spec(attached, bytes_before, bytes_after),
{
    if bytes_after > bytes_before {
        let required = storage_cost(bytes_after - bytes_before);
        if attached < required {
            Err(TokenError::InsufficientDeposit)
        } else {
            Ok(Settlement { charged: required, refund: attached - required })
        }
    } else if bytes_after < bytes_before {
        let released = storage_cost(bytes_before - bytes_after);
        if attached > u128::MAX - released {
            Err(TokenError::Overflow)
        } else {
            Ok(Settlement { charged: 0, refund: attached + released })
        }
    } else {
        Ok(Settlement { charged: 0, refund: attached })
    }
}

} // verus!
