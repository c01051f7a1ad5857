//! Settling the cost of storage against the attached deposit.

use vstd::prelude::*;
use crate::error::Error;
use crate::pricing::saturate;

verus! {

/// A refund of at most this many smallest units is not paid out.
pub const DUST_THRESHOLD: u128 = 1;

/// The cost of `storage_used` bytes of storage.
pub open spec fn storage_cost(storage_used: nat, byte_cost: nat) -> nat {
    storage_used * byte_cost
}

/// What is left of the attached deposit after `extra_spend`; negative where
/// more was spent than attached.
pub open spec fn available_deposit(attached_deposit: nat, extra_spend: nat) -> int {
    attached_deposit - extra_spend
}

/// How `refund_deposit` ends. It fails where the cost of storage exceeds what
/// is left of the deposit. Else the rest is refunded where it is more than
/// dust, and nothing is refunded where it is not.
pub open spec fn refund_result(storage_used: nat, extra_spend: nat, attached_deposit: nat, byte_cost: nat) -> Result<
    Option<u128>,
    Error,
> {
    let required = storage_cost(storage_used, byte_cost);
    let available = available_deposit(attached_deposit, extra_spend);
    if required > available {
        Err(Error::StorageNotCovered { required: saturate(required) })
    } else if available - required > DUST_THRESHOLD {
        Ok(Some((available - required) as u128))
    } else {
        Ok(None)
    }
}

/// Settles the storage that an operation took against the deposit that came
/// with it. `extra_spend` is what the operation already spent of the
/// deposit, `byte_cost` the price of one byte. Returns the amount to refund
/// to the caller, if any.
pub fn refund_deposit(storage_used: u64, extra_spend: u128, attached_deposit: u128, byte_cost: u128) -> (r: Result<
    Option<u128>,
    Error,
>)
    ensures
        r == refund_result(storage_used as nat, extra_spend as nat, attached_deposit as nat, byte_cost as nat),
{
    let ghost required = storage_cost(storage_used as nat, byte_cost as nat);
    match byte_cost.checked_mul(storage_used as u128) {
        None => {
            assert(required > u128::MAX) by (nonlinear_arith)
                requires
                    required == storage_used * byte_cost,
                    byte_cost * storage_used > u128::MAX,
            ;
            Err(Error::StorageNotCovered { required: u128::MAX })
        },
        Some(cost) => {
            assert(required == cost) by (nonlinear_arith)
                requires
                    required == storage_used * byte_cost,
                    cost == byte_cost * storage_used,
            ;
            if attached_deposit < extra_spend {
                return Err(Error::StorageNotCovered { required: cost });
            }
            let available = attached_deposit - extra_spend;
            if cost > available {
                return Err(Error::StorageNotCovered { required: cost });
            }
            let refund = available - cost;
            if refund > DUST_THRESHOLD {
                Ok(Some(refund))
            } else {
                Ok(None)
            }
        },
    }
}

} // verus!
