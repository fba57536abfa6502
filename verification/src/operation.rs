use crate::accounts::CreateMessagePayment;
use crate::accounts::DonateFunds;
use crate::accounts::ProcessMessagePayment;
use crate::address::Address;
use crate::donation::donate_funds;
use crate::error::EscrowError;
use crate::escrow::approve_message_payment;
use crate::escrow::create_message_payment;
use crate::escrow::reject_message_payment;
use crate::ledger::Ledger;
use crate::model::LedgerView;
use vstd::prelude::*;

verus! {

/// One request to the ledger, with the accounts it names.
#[derive(Debug)]
pub enum Operation {
    Create { payment: CreateMessagePayment, amount: u64, message_id: String },
    Approve { settlement: ProcessMessagePayment },
    Reject { settlement: ProcessMessagePayment },
    Donate { donation: DonateFunds, amount: u64 },
}

impl Operation {
    /// The accounts that the request names.
    pub open spec fn named(self) -> Set<Address> {
        match self {
            Operation::Create { payment, .. } => set![
                payment.sender.key,
                payment.recipient,
                payment.message_escrow,
            ],
            Operation::Approve { settlement } => set![
                settlement.sender,
                settlement.recipient.key,
                settlement.message_escrow,
            ],
            Operation::Reject { settlement } => set![
                settlement.sender,
                settlement.recipient.key,
                settlement.message_escrow,
            ],
            Operation::Donate { donation, .. } => set![
                donation.donor.key,
                donation.donation_address,
            ],
        }
    }

    /// What the request makes of a ledger, at the reserve and the time that
    /// the host reports.
    pub open spec fn outcome(self, pre: LedgerView, reserve: u64, now: i64) -> Result<
        LedgerView,
        EscrowError,
    > {
        match self {
            Operation::Create { payment, amount, message_id } => pre.create(
                payment,
                amount,
                message_id@,
                reserve,
                now,
            ),
            Operation::Approve { settlement } => pre.approve(settlement, reserve, now),
            Operation::Reject { settlement } => pre.reject(settlement, reserve, now),
            Operation::Donate { donation, amount } => pre.donate(donation, amount),
        }
    }
}

/// Carries out one request on the ledger, all of it or nothing.
pub fn execute(ledger: &mut Ledger, operation: Operation, reserve: u64, now: i64) -> (done: Result<
    (),
    EscrowError,
>)
    ensures
        match done {
            Ok(()) => operation.outcome(old(ledger)@, reserve, now) == Ok::<
                LedgerView,
                EscrowError,
            >(final(ledger)@),
            Err(e) => operation.outcome(old(ledger)@, reserve, now) == Err::<
                LedgerView,
                EscrowError,
            >(e) && final(ledger)@ == old(ledger)@,
        },
        final(ledger)@.supply() == old(ledger)@.supply(),
        final(ledger)@.wf(),
{
    match operation {
        Operation::Create { payment, amount, message_id } => create_message_payment(
            ledger,
            &payment,
            amount,
            message_id,
            reserve,
            now,
        ),
        Operation::Approve { settlement } => approve_message_payment(
            ledger,
            &settlement,
            reserve,
            now,
        ),
        Operation::Reject { settlement } => reject_message_payment(
            ledger,
            &settlement,
            reserve,
            now,
        ),
        Operation::Donate { donation, amount } => donate_funds(ledger, &donation, amount),
    }
}

} // verus!
