use crate::address::Address;
use vstd::prelude::*;

verus! {

/// A party to an operation and whether it signed the request.
#[derive(Clone, Copy, Debug)]
pub struct Authority {
    pub key: Address,
    pub is_signer: bool,
}

/// The accounts named when a payment is put in escrow.
#[derive(Clone, Copy, Debug)]
pub struct CreateMessagePayment {
    /// Who funds the payment; must have signed.
    pub sender: Authority,
    /// Who will decide on the payment.
    pub recipient: Address,
    /// Where the record is to live: the address derived for the message.
    pub message_escrow: Address,
}

/// The accounts named when a payment is approved or rejected.
#[derive(Clone, Copy, Debug)]
pub struct ProcessMessagePayment {
    /// Who funded the payment.
    pub sender: Address,
    /// Who decides; must have signed.
    pub recipient: Authority,
    /// The record's account.
    pub message_escrow: Address,
}

/// The accounts named in a donation.
#[derive(Clone, Copy, Debug)]
pub struct DonateFunds {
    /// Who gives; must have signed.
    pub donor: Authority,
    /// Who receives.
    pub donation_address: Address,
}

} // verus!
