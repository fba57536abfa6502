use crate::error::EscrowError;
use crate::model::allocation_cost;
use vstd::prelude::*;

verus! {

/// What a record account pays out when it is settled: all that it holds
/// above its reserve. An account that holds less than its reserve pays
/// nothing and fails the settlement.
pub fn payable(held: u64, reserve: u64) -> (surplus: Result<u64, EscrowError>)
    ensures
        match surplus {
            Ok(paid) => held >= reserve && paid == held - reserve,
            Err(e) => held < reserve && e == EscrowError::ArithmeticUnderflow,
        },
{
    match held.checked_sub(reserve) {
        Some(paid) => Ok(paid),
        None => Err(EscrowError::ArithmeticUnderflow),
    }
}

/// What the sender owes when an escrow is created: the amount, and what the
/// record account lacks of its reserve. `None` where the sum does not fit in
/// 64 bits, which no sender can pay.
pub fn creation_due(held: u64, reserve: u64, amount: u64) -> (due: Option<u64>)
    ensures
        match due {
            Some(total) => total == allocation_cost(held as nat, reserve) + amount,
            None => allocation_cost(held as nat, reserve) + amount > u64::MAX,
        },
{
    let cost = if held >= reserve {
        0
    } else {
        reserve - held
    };
    cost.checked_add(amount)
}

} // verus!
