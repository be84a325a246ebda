use vstd::prelude::*;

use crate::errors::LedgerError;

verus! {

/// What one byte of persisted storage costs the caller, in the host's
/// smallest payment unit.
pub const STORAGE_COST_PER_BYTE: u128 = 10_000_000_000_000_000_000;

/// How a mutating call settles with its caller: `charged` is kept to pay for
/// net storage growth; `refund` goes back to the caller — the unused part of
/// the attached payment, plus the price of any storage the call released.
#[derive(Clone, Copy, Debug, PartialEq, Eq, Structural)]
pub struct Settlement {
    pub charged: u128,
    pub refund: u128,
}

/// The outcome the storage accountant owes for one mutation measured at
/// `before` bytes on entry and `after` bytes on exit, with `attached`
/// payment: growth must be paid for in full or the call fails with
/// `InsufficientDeposit` (and the mutation must not survive); shrinkage is
/// refunded; either way no excess payment is kept.
pub open spec fn spec_settle(before: nat, after: nat, attached: nat) -> Result<
    Settlement,
    LedgerError,
> {
    if after > before {
        let required = (after - before) * STORAGE_COST_PER_BYTE;
        if attached < required {
            Err(LedgerError::InsufficientDeposit)
        } else {
            Ok(Settlement { charged: required as u128, refund: (attached - required) as u128 })
        }
    } else {
        Ok(
            Settlement {
                charged: 0,
                refund: (attached + (before - after) * STORAGE_COST_PER_BYTE) as u128,
            },
        )
    }
}

/// Settles one mutation's storage bill. The caller bounds `before` so the
/// shrinkage refund cannot overflow the payment type.
pub fn settle_storage(before: usize, after: usize, attached: u128) -> (r: Result<
    Settlement,
    LedgerError,
>)
    requires
        attached + before * STORAGE_COST_PER_BYTE <= u128::MAX,
        before * STORAGE_COST_PER_BYTE <= u128::MAX,
        after * STORAGE_COST_PER_BYTE <= u128::MAX,
    ensures
        r == spec_settle(before as nat, after as nat, attached as nat),
{
    if after > before {
        let delta = (after - before) as u128;
        let required = delta * STORAGE_COST_PER_BYTE;
        if attached < required {
            Err(LedgerError::InsufficientDeposit)
        } else {
            Ok(Settlement { charged: required, refund: attached - required })
        }
    } else {
        let released = (before - after) as u128;
        Ok(Settlement { charged: 0, refund: attached + released * STORAGE_COST_PER_BYTE })
    }
}

} // verus!
