//! Settling the attached deposit against the storage a call used.

use vstd::prelude::*;
use crate::error::ContractError;

verus! {

/// Why the deposit cannot settle a call that used `storage_used` bytes and
/// spent `extra_spend` of the deposit, at `storage_byte_cost` per byte.
pub open spec fn refund_error(storage_used: u64, extra_spend: u128, storage_byte_cost: u128, attached_deposit: u128) -> Option<ContractError> {
    if storage_byte_cost * storage_used > u128::MAX {
        Some(ContractError::ArithmeticOverflow)
    } else if attached_deposit < extra_spend {
        Some(ContractError::ArithmeticOverflow)
    } else if storage_byte_cost * storage_used > attached_deposit - extra_spend {
        Some(ContractError::StorageNotCovered)
    } else {
        None
    }
}

/// What is left of the deposit after the extra spending and the storage.
pub open spec fn refund_amount(storage_used: u64, extra_spend: u128, storage_byte_cost: u128, attached_deposit: u128) -> int {
    attached_deposit - extra_spend - storage_byte_cost * storage_used
}

/// Checks that the deposit, less `extra_spend`, pays for `storage_used`
/// bytes, and gives the refund to send back to the predecessor: the rest of
/// the deposit, when it is more than one yoctoNEAR.
pub fn refund_deposit(storage_used: u64, extra_spend: u128, storage_byte_cost: u128, attached_deposit: u128)
    -> (r: Result<Option<u128>, ContractError>)
    ensures
        r is Err <==> refund_error(storage_used, extra_spend, storage_byte_cost, attached_deposit) is Some,
        r matches Err(e) ==> refund_error(storage_used, extra_spend, storage_byte_cost, attached_deposit) == Some(e),
        r matches Ok(refund) ==> {
            let rest = refund_amount(storage_used, extra_spend, storage_byte_cost, attached_deposit);
            &&& rest >= 0
            &&& refund == (if rest > 1 { Some(rest as u128) } else { None::<u128> })
        },
{
    let required_cost = match storage_byte_cost.checked_mul(storage_used as u128) {
        Some(c) => c,
        None => {
            return Err(ContractError::ArithmeticOverflow);
        },
    };
    if attached_deposit < extra_spend {
        return Err(ContractError::ArithmeticOverflow);
    }
    let available = attached_deposit - extra_spend;
    if required_cost > available {
        return Err(ContractError::StorageNotCovered);
    }
    let refund = available - required_cost;
    if refund > 1 {
        Ok(Some(refund))
    } else {
        Ok(None)
    }
}

} // verus!
